//! The endpoint's decision logic: requests of the application and events
//! of the transport, the protocol state machine and the timers go in;
//! replies and transport actions come out.
use vstd::prelude::*;

use mqtt_protocol_core::mqtt::Version;

use crate::mqtt_ep::connection_error::ConnectionError;
use crate::mqtt_ep::connection_option::ConnectionOption;
use crate::mqtt_ep::packet_filter::{PacketFilter, PacketType};
use crate::mqtt_ep::protocol::{Packet, Publish, StorePacket, TimerKind};

pub mod engine;

pub use engine::EndpointCore;

verus! {

/// Which packet ends the establishment of a connection: a client waits for
/// CONNACK, a server for CONNECT.
#[derive(Debug, Clone, Copy, PartialEq, Eq, Structural)]
pub enum Mode {
    /// Client mode: expects to receive CONNACK.
    Client,
    /// Server mode: expects to receive CONNECT.
    Server,
}

/// The number by which the application tells its requests apart.
pub type RequestId = u64;

/// A request of the application to the endpoint.
pub enum Request {
    Send(Packet),
    Recv(PacketFilter),
    AcquirePacketId,
    AcquirePacketIdWhenAvailable,
    RegisterPacketId(u16),
    ReleasePacketId(u16),
    Close,
    Attach { mode: Mode, options: ConnectionOption },
    GetStoredPackets,
    SetOfflinePublish(bool),
    GetQos2PublishHandled,
    GetReceiveMaximumVacancyForSend,
    GetProtocolVersion,
    RegulateForStore(Publish),
}

/// The answer to a request.
pub enum Response {
    Unit(Result<(), ConnectionError>),
    Packet(Result<Packet, ConnectionError>),
    PacketId(Result<u16, ConnectionError>),
    StoredPackets(Vec<StorePacket>),
    Qos2Handled(Vec<u16>),
    Vacancy(Option<u16>),
    ProtocolVersion(Version),
    Regulated(Result<Publish, ConnectionError>),
}

/// What the application is to do next.
pub enum Action {
    /// Nothing is left to do until the next request or event.
    Idle,
    /// Work was done inside the endpoint; ask again.
    Continue,
    /// Answer a request.
    Reply { id: RequestId, response: Response },
    /// Send a packet on the transport, then report whether it was sent.
    Transmit(Packet),
    /// Shut the transport down within the timeout.
    Shutdown { timeout_ms: u64 },
    /// Adopt the transport that came with the last attach request.
    AttachTransport,
    /// Drop the transport.
    DetachTransport,
    /// Start (again) the timer of the given kind; a timer that is not live
    /// never reports that it fired.
    ResetTimer { kind: TimerKind, duration_ms: u64, live: bool },
    /// Stop the timer of the given kind.
    CancelTimer(TimerKind),
    /// Start the connection establishment timer.
    StartEstablishTimer { duration_ms: u64 },
    /// Stop the connection establishment timer.
    CancelEstablishTimer,
}

impl Action {
    /// An action that the endpoint queues without waiting for its outcome.
    pub open spec fn is_plain(self) -> bool {
        match self {
            Action::Shutdown { .. } | Action::AttachTransport | Action::DetachTransport
            | Action::ResetTimer { .. } | Action::CancelTimer(_) | Action::StartEstablishTimer { .. }
            | Action::CancelEstablishTimer => true,
            _ => false,
        }
    }
}

/// What the receive side of the transport is to do.
#[derive(Debug, Clone, Copy, PartialEq, Eq, Structural)]
pub enum RecvPoll {
    /// Nobody waits for a packet, or no transport is attached: do not read.
    Wait,
    /// Bytes already read remain to be processed.
    Buffered,
    /// Read from the transport into the endpoint's buffer.
    Read,
}

/// The outcome of a read from the transport.
#[derive(Debug, Clone, Copy, PartialEq, Eq, Structural)]
pub enum ReadOutcome {
    /// This many bytes were read; none means that the peer closed.
    Data(usize),
    /// The read failed.
    Failed,
}

/// Whether receiving a packet of this type ends the establishment of a
/// connection in this mode.
pub open spec fn ends_establishment(mode: Mode, t: PacketType) -> bool {
    match mode {
        Mode::Client => t == PacketType::Connack,
        Mode::Server => t == PacketType::Connect,
    }
}

/// A client's connection is established by the CONNACK it receives, a
/// server's by the CONNECT: no other packet ends the establishment.
pub proof fn law_establishment_ends_with_mode_packet(t: PacketType)
    ensures
        ends_establishment(Mode::Client, t) <==> t == PacketType::Connack,
        ends_establishment(Mode::Server, t) <==> t == PacketType::Connect,
{
}

/// Decides [`ends_establishment`].
pub fn establishment_ends(mode: Mode, t: PacketType) -> (r: bool)
    ensures
        r == ends_establishment(mode, t),
{
    match mode {
        Mode::Client => t == PacketType::Connack,
        Mode::Server => t == PacketType::Connect,
    }
}

} // verus!
