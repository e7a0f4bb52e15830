//! Selection of received packets by their type.
use vstd::prelude::*;

use crate::mqtt_ep::protocol::{packet_type_code, packet_type_number, Packet};

verus! {

/// The type of an MQTT control packet.
#[derive(Clone, Copy, Debug, PartialEq, Eq, Structural)]
pub enum PacketType {
    Connect,
    Connack,
    Publish,
    Puback,
    Pubrec,
    Pubrel,
    Pubcomp,
    Subscribe,
    Suback,
    Unsubscribe,
    Unsuback,
    Pingreq,
    Pingresp,
    Disconnect,
    Auth,
}

impl PacketType {
    /// The packet type with the given number, as MQTT numbers them (1:
    /// CONNECT to 15: AUTH); numbers outside that range give AUTH.
    pub open spec fn spec_from_code(code: u8) -> PacketType {
        if code == 1 {
            PacketType::Connect
        } else if code == 2 {
            PacketType::Connack
        } else if code == 3 {
            PacketType::Publish
        } else if code == 4 {
            PacketType::Puback
        } else if code == 5 {
            PacketType::Pubrec
        } else if code == 6 {
            PacketType::Pubrel
        } else if code == 7 {
            PacketType::Pubcomp
        } else if code == 8 {
            PacketType::Subscribe
        } else if code == 9 {
            PacketType::Suback
        } else if code == 10 {
            PacketType::Unsubscribe
        } else if code == 11 {
            PacketType::Unsuback
        } else if code == 12 {
            PacketType::Pingreq
        } else if code == 13 {
            PacketType::Pingresp
        } else if code == 14 {
            PacketType::Disconnect
        } else {
            PacketType::Auth
        }
    }

    /// The packet type with the given number.
    pub fn from_code(code: u8) -> (r: PacketType)
        ensures
            r == PacketType::spec_from_code(code),
    {
        if code == 1 {
            PacketType::Connect
        } else if code == 2 {
            PacketType::Connack
        } else if code == 3 {
            PacketType::Publish
        } else if code == 4 {
            PacketType::Puback
        } else if code == 5 {
            PacketType::Pubrec
        } else if code == 6 {
            PacketType::Pubrel
        } else if code == 7 {
            PacketType::Pubcomp
        } else if code == 8 {
            PacketType::Subscribe
        } else if code == 9 {
            PacketType::Suback
        } else if code == 10 {
            PacketType::Unsubscribe
        } else if code == 11 {
            PacketType::Unsuback
        } else if code == 12 {
            PacketType::Pingreq
        } else if code == 13 {
            PacketType::Pingresp
        } else if code == 14 {
            PacketType::Disconnect
        } else {
            PacketType::Auth
        }
    }
}

/// Packet type numbers are those of MQTT: 1 CONNECT, 2 CONNACK, 3 PUBLISH,
/// 4 PUBACK, 5 PUBREC, 6 PUBREL, 7 PUBCOMP, 8 SUBSCRIBE, 9 SUBACK,
/// 10 UNSUBSCRIBE, 11 UNSUBACK, 12 PINGREQ, 13 PINGRESP, 14 DISCONNECT,
/// 15 AUTH; no two numbers of that range give the same type.
pub proof fn law_packet_type_numbers_follow_mqtt()
    ensures
        PacketType::spec_from_code(1) == PacketType::Connect,
        PacketType::spec_from_code(2) == PacketType::Connack,
        PacketType::spec_from_code(3) == PacketType::Publish,
        PacketType::spec_from_code(4) == PacketType::Puback,
        PacketType::spec_from_code(5) == PacketType::Pubrec,
        PacketType::spec_from_code(6) == PacketType::Pubrel,
        PacketType::spec_from_code(7) == PacketType::Pubcomp,
        PacketType::spec_from_code(8) == PacketType::Subscribe,
        PacketType::spec_from_code(9) == PacketType::Suback,
        PacketType::spec_from_code(10) == PacketType::Unsubscribe,
        PacketType::spec_from_code(11) == PacketType::Unsuback,
        PacketType::spec_from_code(12) == PacketType::Pingreq,
        PacketType::spec_from_code(13) == PacketType::Pingresp,
        PacketType::spec_from_code(14) == PacketType::Disconnect,
        PacketType::spec_from_code(15) == PacketType::Auth,
        forall|a: u8, b: u8| 1 <= a <= 15 && 1 <= b <= 15 && a != b
            ==> PacketType::spec_from_code(a) != PacketType::spec_from_code(b),
{
}

/// The type of a packet, by the number that its type has.
pub open spec fn spec_packet_type(p: Packet) -> PacketType {
    PacketType::spec_from_code(packet_type_number(p))
}

/// The type of a packet.
pub fn packet_type_of(packet: &Packet) -> (r: PacketType)
    ensures
        r == spec_packet_type(*packet),
{
    let code = packet_type_code(packet);
    PacketType::from_code(code)
}

/// A filter on received packets: only the listed types, every type but the
/// listed ones, or every type.
#[derive(Debug, Clone)]
pub enum PacketFilter {
    /// Accept only packets of the listed types.
    Include(Vec<PacketType>),
    /// Accept every packet except those of the listed types.
    Exclude(Vec<PacketType>),
    /// Accept every packet.
    Any,
}

/// Whether `t` occurs in `types`.
fn list_contains(types: &Vec<PacketType>, t: PacketType) -> (r: bool)
    ensures
        r == types@.contains(t),
{
    let mut i: usize = 0;
    while i < types.len()
        invariant
            0 <= i <= types.len(),
            forall|j: int| 0 <= j < i ==> types@[j] != t,
        decreases types.len() - i,
    {
        if types[i] == t {
            assert(types@[i as int] == t);
            return true;
        }
        i += 1;
    }
    false
}

impl PacketFilter {
    /// Whether the filter accepts a packet of type `t`.
    pub open spec fn accepts(&self, t: PacketType) -> bool {
        match self {
            PacketFilter::Include(types) => types@.contains(t),
            PacketFilter::Exclude(types) => !types@.contains(t),
            PacketFilter::Any => true,
        }
    }

    /// Whether a packet of type `packet_type` passes the filter.
    pub fn matches_packet_type(&self, packet_type: PacketType) -> (r: bool)
        ensures
            r == self.accepts(packet_type),
    {
        match self {
            PacketFilter::Include(types) => list_contains(types, packet_type),
            PacketFilter::Exclude(types) => !list_contains(types, packet_type),
            PacketFilter::Any => true,
        }
    }

    /// Whether a packet passes the filter: the filter accepts its type.
    pub fn matches(&self, packet: &Packet) -> (r: bool)
        ensures
            r == self.accepts(spec_packet_type(*packet)),
    {
        let t = packet_type_of(packet);
        self.matches_packet_type(t)
    }

    /// A filter that accepts only the packets of the given types.
    pub fn include_types(types: Vec<PacketType>) -> (r: Self)
        ensures
            r == PacketFilter::Include(types),
    {
        PacketFilter::Include(types)
    }

    /// A filter that accepts every packet except those of the given types.
    pub fn exclude(types: Vec<PacketType>) -> (r: Self)
        ensures
            r == PacketFilter::Exclude(types),
    {
        PacketFilter::Exclude(types)
    }
}

/// An include filter accepts exactly the listed types, an exclude filter
/// exactly the others: a listed type passes the one and fails the other, and
/// a type not listed fails the one and passes the other.
pub proof fn law_filters_select_by_list(types: Vec<PacketType>, t: PacketType)
    ensures
        forall|i: int| 0 <= i < types@.len() ==> PacketFilter::Include(types).accepts(#[trigger] types@[i])
            && !PacketFilter::Exclude(types).accepts(types@[i]),
        (forall|i: int| 0 <= i < types@.len() ==> #[trigger] types@[i] != t)
            ==> !PacketFilter::Include(types).accepts(t) && PacketFilter::Exclude(types).accepts(t),
{
    assert forall|i: int| 0 <= i < types@.len() implies PacketFilter::Include(types).accepts(#[trigger] types@[i])
        && !PacketFilter::Exclude(types).accepts(types@[i]) by {
        assert(types@.contains(types@[i]));
    }
}

/// The filters partition the packet types: a type passes an include filter
/// exactly when it fails the exclude filter of the same list, and the
/// filter that accepts everything accepts every type.
pub proof fn law_include_exclude_complement(types: Vec<PacketType>, t: PacketType)
    ensures
        PacketFilter::Include(types).accepts(t) == !PacketFilter::Exclude(types).accepts(t),
        PacketFilter::Any.accepts(t),
{
}

} // verus!
