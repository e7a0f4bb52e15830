//! The types of `mqtt-protocol-core` that the endpoint carries, and the
//! trusted calls into that crate.
use vstd::prelude::*;

use mqtt_protocol_core::mqtt::connection::GenericEvent;
use mqtt_protocol_core::mqtt::connection::GenericEvent as G;
use mqtt_protocol_core::mqtt::connection::TimerKind as CoreTimerKind;
use mqtt_protocol_core::mqtt::common::Cursor;
use mqtt_protocol_core::mqtt::packet::v5_0::GenericPublish;
use mqtt_protocol_core::mqtt::packet::{GenericPacket, GenericStorePacket};
use mqtt_protocol_core::mqtt::result_code::MqttError;
use mqtt_protocol_core::mqtt::role;
use mqtt_protocol_core::mqtt::GenericConnection;
use mqtt_protocol_core::mqtt::Version;

verus! {

/// The protocol error of `mqtt-protocol-core`, carried as an opaque value.
#[verifier::external_type_specification]
#[verifier::external_body]
pub struct ExMqttError(MqttError);

/// The protocol version of `mqtt-protocol-core`, carried as an opaque value.
#[verifier::external_type_specification]
#[verifier::external_body]
pub struct ExVersion(Version);

/// The I/O error of std, carried as an opaque value.
#[verifier::external_type_specification]
#[verifier::external_body]
pub struct ExIoError(std::io::Error);

/// Which role a connection plays; it decides which packets it may send.
#[derive(Clone, Copy, Debug, PartialEq, Eq, Structural)]
pub enum RoleKind {
    Client,
    Server,
    Any,
}

/// The Sans-I/O MQTT state machine of `mqtt-protocol-core`
/// (`GenericConnection<Role, u16>`) for one of the three roles, held opaque.
/// The client or server machine is used when it is there, else the one of
/// role `Any`.
#[verifier::external_body]
pub struct Connection {
    client: Option<GenericConnection<role::Client, u16>>,
    server: Option<GenericConnection<role::Server, u16>>,
    any: GenericConnection<role::Any, u16>,
}

/// An MQTT packet of `mqtt-protocol-core` (`GenericPacket<u16>`), held opaque.
#[verifier::external_body]
pub struct Packet {
    pub inner: GenericPacket<u16>,
}

/// A stored packet of `mqtt-protocol-core` (`GenericStorePacket<u16>`), held opaque.
#[verifier::external_body]
pub struct StorePacket {
    pub inner: GenericStorePacket<u16>,
}

/// An MQTT v5.0 PUBLISH packet of `mqtt-protocol-core` (`GenericPublish<u16>`), held opaque.
#[verifier::external_body]
pub struct Publish {
    pub inner: GenericPublish<u16>,
}

/// The events that a call of the state machine gave back, before they are
/// converted, held opaque.
#[verifier::external_body]
pub struct CoreEvents {
    inner: Vec<GenericEvent<u16>>,
}

/// The timer kind of `mqtt-protocol-core`, carried as an opaque value.
#[verifier::external_type_specification]
#[verifier::external_body]
pub struct ExCoreTimerKind(CoreTimerKind);

/// The timers that the protocol state machine asks for.
#[derive(Clone, Copy, Debug, PartialEq, Eq, Structural)]
pub enum TimerKind {
    PingreqSend,
    PingreqRecv,
    PingrespRecv,
}

/// What the protocol state machine asks of the endpoint or tells it.
pub enum Event {
    /// A packet was received and is to be handed to the application.
    NotifyPacketReceived(Packet),
    /// A packet is to be sent; if sending fails, the packet id (if any) is
    /// to be released.
    RequestSendPacket { packet: Packet, release_packet_id_if_send_error: Option<u16> },
    /// A packet id became free.
    NotifyPacketIdReleased(u16),
    /// A timer is to be (re)started.
    RequestTimerReset { kind: TimerKind, duration_ms: u64 },
    /// A timer is to be stopped.
    RequestTimerCancel(TimerKind),
    /// A protocol error occurred.
    NotifyError(MqttError),
    /// The connection is to be closed.
    RequestClose,
}

/// Converts a timer kind of `mqtt-protocol-core` into the endpoint's own,
/// variant for variant.
#[verifier::external_body]
fn own_timer_kind(k: CoreTimerKind) -> TimerKind {
    match k {
        CoreTimerKind::PingreqSend => TimerKind::PingreqSend,
        CoreTimerKind::PingreqRecv => TimerKind::PingreqRecv,
        CoreTimerKind::PingrespRecv => TimerKind::PingrespRecv,
    }
}

/// Converts the events of `mqtt-protocol-core` into the endpoint's own,
/// one for one and in order, variant for variant.
#[verifier::external_body]
fn own_events(events: CoreEvents) -> Vec<Event> {
    events.inner.into_iter().map(|e| match e {
        G::NotifyPacketReceived(p) => Event::NotifyPacketReceived(Packet { inner: p }),
        G::RequestSendPacket { packet, release_packet_id_if_send_error: r } => Event::RequestSendPacket { packet: Packet { inner: packet }, release_packet_id_if_send_error: r },
        G::NotifyPacketIdReleased(id) => Event::NotifyPacketIdReleased(id),
        G::RequestTimerReset { kind, duration_ms } => Event::RequestTimerReset { kind: own_timer_kind(kind), duration_ms },
        G::RequestTimerCancel(kind) => Event::RequestTimerCancel(own_timer_kind(kind)),
        G::NotifyError(e) => Event::NotifyError(e),
        G::RequestClose => Event::RequestClose,
    }).collect()
}

/// The text that the derived `Debug` of `MqttError` writes for an error:
/// the variant's name.
pub uninterp spec fn mqtt_error_debug(e: MqttError) -> Seq<char>;

/// Calls `Debug::fmt` of `MqttError` (a derived impl that writes the
/// variant's name).
#[verifier::external_body]
pub(crate) fn mqtt_error_text(e: &MqttError) -> (r: String)
    ensures
        r@ == mqtt_error_debug(*e),
{
    format!("{e:?}")
}

/// Calls `Display::fmt` of `std::io::Error`. Nothing is stated of the text:
/// the error is opaque here.
#[verifier::external_body]
pub(crate) fn io_error_text(e: &std::io::Error) -> String {
    format!("{e}")
}

/// The number of a packet's type as `GenericPacket::packet_type` gives it:
/// 1 (CONNECT) to 15 (AUTH); it depends on the packet alone.
pub uninterp spec fn packet_type_number(p: Packet) -> u8;

/// Calls `GenericPacket::packet_type` and gives the type's number, 1
/// (CONNECT) to 15 (AUTH), as the crate's `PacketType` numbers them.
#[verifier::external_body]
pub(crate) fn packet_type_code(p: &Packet) -> (r: u8)
    ensures
        r == packet_type_number(*p),
        1 <= r <= 15,
{
    p.inner.packet_type() as u8
}

/// Calls the derived `Clone` of `GenericPacket`, which copies every field:
/// the copy is the packet.
#[verifier::external_body]
pub(crate) fn clone_packet(p: &Packet) -> (r: Packet)
    ensures
        r == *p,
{
    Packet { inner: p.inner.clone() }
}

/// Calls `GenericConnection::new`: a state machine for the given version,
/// which it keeps as its protocol version, with a fresh packet id manager
/// (no id in use; 0 never counts as free).
#[verifier::external_body]
pub(crate) fn connection_new(version: Version, role: RoleKind) -> (r: Connection)
    ensures
        protocol_version_of(r) == version,
        forall|w: u16| packet_id_used(r, w) <==> w == 0,
{
    let any = GenericConnection::new(version);
    match role {
        RoleKind::Client => Connection { client: Some(GenericConnection::new(version)), server: None, any },
        RoleKind::Server => Connection { client: None, server: Some(GenericConnection::new(version)), any },
        RoleKind::Any => Connection { client: None, server: None, any },
    }
}

/// The events that `GenericConnection::send` gives back for a packet, in a
/// state of the machine.
pub uninterp spec fn sent_events(c: Connection, p: Packet) -> Seq<Event>;

/// The packet id under which the machine's store keeps a packet: that of a
/// QoS 1 or 2 PUBLISH or of a PUBREL; none for any other packet.
pub uninterp spec fn store_key_of(p: Packet) -> Option<u16>;

/// The packets that the machine's store holds, as `get_stored_packets`
/// gives them.
pub uninterp spec fn stored_packets_of(c: Connection) -> Seq<StorePacket>;

/// The packet id of a stored packet, the key under which the store holds it.
pub uninterp spec fn store_packet_id_of(p: StorePacket) -> u16;

/// Whether the machine's store holds a packet under the id `k`.
pub open spec fn store_holds(c: Connection, k: u16) -> bool {
    exists|i: int| 0 <= i < stored_packets_of(c).len() && store_packet_id_of(#[trigger] stored_packets_of(c)[i]) == k
}

/// The protocol version of the machine, as `get_protocol_version` gives it.
pub uninterp spec fn protocol_version_of(c: Connection) -> Version;

/// Whether a version is other than `Version::Undetermined`.
pub uninterp spec fn version_known(v: Version) -> bool;

/// Whether the machine's protocol version is known.
pub open spec fn version_determined(c: Connection) -> bool {
    version_known(protocol_version_of(c))
}

/// Calls `GenericConnection::send`. The machine stores a QoS 1 or 2 PUBLISH
/// or a PUBREL under its packet id and panics when the store already holds
/// that id, so such a packet is only handed over when it does not.
#[verifier::external_body]
pub(crate) fn connection_send(
    c: &mut Connection,
    packet: Packet,
) -> (r: Vec<Event>)
    requires
        store_key_of(packet) matches Some(k) ==> !store_holds(*old(c), k),
    ensures
        r@ == sent_events(*old(c), packet),
{
    own_events(CoreEvents { inner: if let Some(x) = &mut c.client { x.send(packet.inner) } else if let Some(x) = &mut c.server { x.send(packet.inner) } else { c.any.send(packet.inner) } })
}

/// The events that `GenericConnection::recv` gives back for the given
/// bytes, in a state of the machine, and how many of the bytes it takes.
pub uninterp spec fn received(c: Connection, bytes: Seq<u8>) -> (Seq<Event>, int);

/// Calls `GenericConnection::recv` on the bytes `data[start..end]` and gives
/// the events and how many of the bytes the state machine took; it takes no
/// more than it was given (its cursor only moves over the bytes it reads).
#[verifier::external_body]
pub(crate) fn connection_recv(
    c: &mut Connection,
    data: &Vec<u8>,
    start: usize,
    end: usize,
) -> (r: (Vec<Event>, usize))
    requires
        start <= end <= data@.len(),
    ensures
        r.1 <= end - start,
        (r.0@, r.1 as int) == received(*old(c), data@.subrange(start as int, end as int)),
{
    let mut cursor = Cursor::new(&data[start..end]);
    let events = own_events(CoreEvents { inner: if let Some(x) = &mut c.client { x.recv(&mut cursor) } else if let Some(x) = &mut c.server { x.recv(&mut cursor) } else { c.any.recv(&mut cursor) } });
    (events, cursor.position() as usize)
}

/// The events that `GenericConnection::notify_timer_fired` gives back for a
/// timer kind, in a state of the machine.
pub uninterp spec fn timer_events(c: Connection, kind: TimerKind) -> Seq<Event>;

/// Calls `GenericConnection::notify_timer_fired`. The machine reaches
/// `unreachable!` when a timer fires while its protocol version is
/// `Undetermined`, so it is only called once the version is known.
#[verifier::external_body]
pub(crate) fn connection_notify_timer_fired(
    c: &mut Connection,
    kind: TimerKind,
) -> (r: Vec<Event>)
    requires
        version_determined(*old(c)),
    ensures
        r@ == timer_events(*old(c), kind),
{
    let k = match kind {
        TimerKind::PingreqSend => CoreTimerKind::PingreqSend,
        TimerKind::PingreqRecv => CoreTimerKind::PingreqRecv,
        TimerKind::PingrespRecv => CoreTimerKind::PingrespRecv,
    };
    own_events(CoreEvents { inner: if let Some(x) = &mut c.client { x.notify_timer_fired(k) } else if let Some(x) = &mut c.server { x.notify_timer_fired(k) } else { c.any.notify_timer_fired(k) } })
}

/// Calls `GenericConnection::notify_closed`. The source releases the packet
/// ids that wait for an acknowledgement and cancels the timers that are
/// set, so each event it gives back is a `NotifyPacketIdReleased` or a
/// `RequestTimerCancel`; which ids come in which order depends on how its
/// hash sets are walked, and is not stated.
#[verifier::external_body]
pub(crate) fn connection_notify_closed(c: &mut Connection) -> (r: Vec<Event>)
    ensures
        forall|i: int| 0 <= i < r@.len()
            ==> (#[trigger] r@[i] is NotifyPacketIdReleased || r@[i] is RequestTimerCancel),
{
    own_events(CoreEvents { inner: if let Some(x) = &mut c.client { x.notify_closed() } else if let Some(x) = &mut c.server { x.notify_closed() } else { c.any.notify_closed() } })
}

/// Whether the machine's packet id manager counts `packet_id` as in use
/// (`PacketIdManager::is_used_id`, which `release_packet_id` consults). Its
/// ids run from 1 to 65535; 0 is never free.
pub uninterp spec fn packet_id_used(c: Connection, packet_id: u16) -> bool;

/// What `GenericConnection::acquire_packet_id` gives back in a state of the
/// machine.
pub uninterp spec fn acquire_result(c: Connection) -> Result<u16, MqttError>;

/// Calls `GenericConnection::acquire_packet_id`. The source's allocator
/// hands out the lowest free id (its free ranges are kept in order, and it
/// takes the low end of the first), which is then in use, and fails only
/// when every id from 1 to 65535 is in use.
#[verifier::external_body]
pub(crate) fn connection_acquire_packet_id(
    c: &mut Connection,
) -> (r: Result<u16, MqttError>)
    ensures
        r == acquire_result(*old(c)),
        r matches Ok(v) ==> v != 0 && !packet_id_used(*old(c), v)
            && forall|w: u16| 0 < w < v ==> packet_id_used(*old(c), w),
        r is Err ==> forall|w: u16| w != 0 ==> packet_id_used(*old(c), w),
        forall|w: u16| packet_id_used(*final(c), w)
            <==> (packet_id_used(*old(c), w) || r == Ok::<u16, MqttError>(w)),
{
    if let Some(x) = &mut c.client { x.acquire_packet_id() } else if let Some(x) = &mut c.server { x.acquire_packet_id() } else { c.any.acquire_packet_id() }
}

/// Calls `GenericConnection::register_packet_id`: the source's allocator
/// takes an id that is not in use and refuses one that is.
#[verifier::external_body]
pub(crate) fn connection_register_packet_id(
    c: &mut Connection,
    packet_id: u16,
) -> (r: Result<(), MqttError>)
    ensures
        r is Ok <==> !packet_id_used(*old(c), packet_id),
        forall|w: u16| packet_id_used(*final(c), w) <==> (packet_id_used(*old(c), w) || w == packet_id),
{
    if let Some(x) = &mut c.client { x.register_packet_id(packet_id) } else if let Some(x) = &mut c.server { x.register_packet_id(packet_id) } else { c.any.register_packet_id(packet_id) }
}

/// Calls `GenericConnection::release_packet_id`: the source gives back the
/// event `NotifyPacketIdReleased(packet_id)` when the id was in use, and no
/// event otherwise. Its allocator panics when handed the id 0, which it
/// counts as in use, so 0 is never passed.
#[verifier::external_body]
pub(crate) fn connection_release_packet_id(
    c: &mut Connection,
    packet_id: u16,
) -> (r: Vec<Event>)
    requires
        packet_id != 0,
    ensures
        r@.len() <= 1,
        r@.len() == 1 <==> packet_id_used(*old(c), packet_id),
        r@.len() == 1 ==> r@[0] == Event::NotifyPacketIdReleased(packet_id),
        forall|w: u16| packet_id_used(*final(c), w) <==> (packet_id_used(*old(c), w) && w != packet_id),
{
    own_events(CoreEvents { inner: if let Some(x) = &mut c.client { x.release_packet_id(packet_id) } else if let Some(x) = &mut c.server { x.release_packet_id(packet_id) } else { c.any.release_packet_id(packet_id) } })
}

/// Calls `GenericConnection::get_stored_packets`.
#[verifier::external_body]
pub(crate) fn connection_stored_packets(
    c: &Connection,
) -> (r: Vec<StorePacket>)
    ensures
        r@ == stored_packets_of(*c),
{
    (if let Some(x) = &c.client { x.get_stored_packets() } else if let Some(x) = &c.server { x.get_stored_packets() } else { c.any.get_stored_packets() }).into_iter().map(|p| StorePacket { inner: p }).collect()
}

/// Calls `GenericConnection::set_offline_publish`.
#[verifier::external_body]
pub(crate) fn connection_set_offline_publish(
    c: &mut Connection,
    enable: bool,
) {
    if let Some(x) = &mut c.client { x.set_offline_publish(enable) } else if let Some(x) = &mut c.server { x.set_offline_publish(enable) } else { c.any.set_offline_publish(enable) }
}

/// The ids of the QoS 2 PUBLISH packets that the machine has handled, as
/// `get_qos2_publish_handled` gives them (a set).
pub uninterp spec fn qos2_handled_of(c: Connection) -> Set<u16>;

/// Calls `GenericConnection::get_qos2_publish_handled` and hands the ids out
/// as a list; a set holds each id once, so the list has no duplicate. The
/// order of the list is that in which the hash set is walked, and is not
/// stated.
#[verifier::external_body]
pub(crate) fn connection_qos2_publish_handled(
    c: &Connection,
) -> (r: Vec<u16>)
    ensures
        r@.no_duplicates(),
        r@.to_set() == qos2_handled_of(*c),
{
    (if let Some(x) = &c.client { x.get_qos2_publish_handled() } else if let Some(x) = &c.server { x.get_qos2_publish_handled() } else { c.any.get_qos2_publish_handled() }).into_iter().collect()
}

/// How many more QoS 1 and 2 PUBLISH packets the peer's receive maximum
/// admits, as `get_receive_maximum_vacancy_for_send` gives it.
pub uninterp spec fn vacancy_of(c: Connection) -> Option<u16>;

/// Calls `GenericConnection::get_receive_maximum_vacancy_for_send`.
#[verifier::external_body]
pub(crate) fn connection_vacancy_for_send(
    c: &Connection,
) -> (r: Option<u16>)
    ensures
        r == vacancy_of(*c),
{
    if let Some(x) = &c.client { x.get_receive_maximum_vacancy_for_send() } else if let Some(x) = &c.server { x.get_receive_maximum_vacancy_for_send() } else { c.any.get_receive_maximum_vacancy_for_send() }
}

/// Calls `GenericConnection::get_protocol_version`.
#[verifier::external_body]
pub(crate) fn connection_protocol_version(c: &Connection) -> (r: Version)
    ensures
        r == protocol_version_of(*c),
{
    if let Some(x) = &c.client { x.get_protocol_version() } else if let Some(x) = &c.server { x.get_protocol_version() } else { c.any.get_protocol_version() }
}

/// What `GenericConnection::regulate_for_store` gives back for a PUBLISH in
/// a state of the machine (it resolves the topic alias with the machine's
/// alias table).
pub uninterp spec fn regulate_result(c: Connection, p: Publish) -> Result<Publish, MqttError>;

/// Calls `GenericConnection::regulate_for_store`.
#[verifier::external_body]
pub(crate) fn connection_regulate_for_store(
    c: &Connection,
    packet: Publish,
) -> (r: Result<Publish, MqttError>)
    ensures
        r == regulate_result(*c, packet),
{
    (if let Some(x) = &c.client { x.regulate_for_store(packet.inner) } else if let Some(x) = &c.server { x.regulate_for_store(packet.inner) } else { c.any.regulate_for_store(packet.inner) }).map(|p| Publish { inner: p })
}

/// Calls `GenericConnection::set_pingreq_send_interval`; the endpoint does not
/// act on the events it gives back.
#[verifier::external_body]
pub(crate) fn connection_set_pingreq_send_interval(
    c: &mut Connection,
    duration_ms: Option<u64>,
) {
    let _ = if let Some(x) = &mut c.client { x.set_pingreq_send_interval(duration_ms) } else if let Some(x) = &mut c.server { x.set_pingreq_send_interval(duration_ms) } else { c.any.set_pingreq_send_interval(duration_ms) };
}

/// Calls `GenericConnection::set_auto_pub_response`.
#[verifier::external_body]
pub(crate) fn connection_set_auto_pub_response(c: &mut Connection, v: bool) {
    if let Some(x) = &mut c.client { x.set_auto_pub_response(v) } else if let Some(x) = &mut c.server { x.set_auto_pub_response(v) } else { c.any.set_auto_pub_response(v) }
}

/// Calls `GenericConnection::set_auto_ping_response`.
#[verifier::external_body]
pub(crate) fn connection_set_auto_ping_response(c: &mut Connection, v: bool) {
    if let Some(x) = &mut c.client { x.set_auto_ping_response(v) } else if let Some(x) = &mut c.server { x.set_auto_ping_response(v) } else { c.any.set_auto_ping_response(v) }
}

/// Calls `GenericConnection::set_auto_map_topic_alias_send`.
#[verifier::external_body]
pub(crate) fn connection_set_auto_map_topic_alias_send(
    c: &mut Connection,
    v: bool,
) {
    if let Some(x) = &mut c.client { x.set_auto_map_topic_alias_send(v) } else if let Some(x) = &mut c.server { x.set_auto_map_topic_alias_send(v) } else { c.any.set_auto_map_topic_alias_send(v) }
}

/// Calls `GenericConnection::set_auto_replace_topic_alias_send`.
#[verifier::external_body]
pub(crate) fn connection_set_auto_replace_topic_alias_send(
    c: &mut Connection,
    v: bool,
) {
    if let Some(x) = &mut c.client { x.set_auto_replace_topic_alias_send(v) } else if let Some(x) = &mut c.server { x.set_auto_replace_topic_alias_send(v) } else { c.any.set_auto_replace_topic_alias_send(v) }
}

/// Calls `GenericConnection::set_pingresp_recv_timeout`.
#[verifier::external_body]
pub(crate) fn connection_set_pingresp_recv_timeout(
    c: &mut Connection,
    timeout_ms: u64,
) {
    if let Some(x) = &mut c.client { x.set_pingresp_recv_timeout(timeout_ms) } else if let Some(x) = &mut c.server { x.set_pingresp_recv_timeout(timeout_ms) } else { c.any.set_pingresp_recv_timeout(timeout_ms) }
}


/// The QoS (0, 1 or 2) of a PUBLISH packet, as its `qos()` gives it.
pub uninterp spec fn publish_qos_of(p: Packet) -> u8;

/// Tells apart the packets that `GenericConnection::send` stores: a QoS 1 or
/// 2 PUBLISH gives its packet id (`packet_id` is `Some` exactly for those,
/// which the packet's builder and parser enforce), a PUBREL its packet id;
/// every other packet, a QoS 0 PUBLISH among them, gives none. PUBLISH is
/// the packet type 3, PUBREL the type 6.
#[verifier::external_body]
pub(crate) fn packet_store_key(p: &Packet) -> (r: Option<u16>)
    ensures
        r == store_key_of(*p),
        packet_type_number(*p) == 3 ==> (r is Some <==> publish_qos_of(*p) > 0),
        packet_type_number(*p) == 6 ==> r is Some,
        packet_type_number(*p) != 3 && packet_type_number(*p) != 6 ==> r is None,
{
    match &p.inner {
        GenericPacket::V3_1_1Publish(x) => x.packet_id(),
        GenericPacket::V5_0Publish(x) => x.packet_id(),
        GenericPacket::V3_1_1Pubrel(x) => Some(x.packet_id()),
        GenericPacket::V5_0Pubrel(x) => Some(x.packet_id()),
        _ => None,
    }
}

/// Calls `GenericStorePacket::packet_id`.
#[verifier::external_body]
pub(crate) fn store_packet_id(p: &StorePacket) -> (r: u16)
    ensures
        r == store_packet_id_of(*p),
{
    p.inner.packet_id()
}

/// Tells whether a version is other than `Version::Undetermined`.
#[verifier::external_body]
pub(crate) fn is_version_known(v: &Version) -> (r: bool)
    ensures
        r == version_known(*v),
{
    match v {
        Version::Undetermined => false,
        _ => true,
    }
}

/// `MqttError::PacketIdentifierConflict`, the error that the machine's store
/// gives for a packet id that it already holds.
#[verifier::external_body]
pub(crate) fn packet_id_conflict() -> MqttError {
    MqttError::PacketIdentifierConflict
}

/// `MqttError::PacketIdentifierInvalid`, the error for a packet id that is not in use.
#[verifier::external_body]
pub(crate) fn packet_id_invalid() -> MqttError {
    MqttError::PacketIdentifierInvalid
}

} // verus!
