//! The endpoint's state machine: it holds the protocol state machine, the
//! requests that wait for an answer and the work in progress, and turns each
//! input into the actions that the application carries out in order.
use vstd::prelude::*;
use vstd::multiset::Multiset;

use mqtt_protocol_core::mqtt::result_code::MqttError;
use mqtt_protocol_core::mqtt::Version;

use crate::mqtt_ep::connection_error::ConnectionError;
use crate::mqtt_ep::connection_option::ConnectionOption;
use crate::mqtt_ep::endpoint::{
    ends_establishment, establishment_ends, Action, Mode, ReadOutcome, RecvPoll, Request, RequestId, Response,
};
use crate::mqtt_ep::packet_filter::{packet_type_of, spec_packet_type, PacketFilter, PacketType};
use crate::mqtt_ep::transport::TransportError;
use crate::mqtt_ep::protocol::{
    clone_packet, connection_acquire_packet_id, connection_new, connection_notify_closed,
    connection_notify_timer_fired, connection_protocol_version, connection_qos2_publish_handled,
    connection_recv, connection_register_packet_id, connection_regulate_for_store,
    connection_release_packet_id, connection_send, connection_set_auto_map_topic_alias_send,
    connection_set_auto_ping_response, connection_set_auto_pub_response,
    connection_set_auto_replace_topic_alias_send, connection_set_offline_publish,
    connection_set_pingreq_send_interval, connection_set_pingresp_recv_timeout,
    connection_stored_packets, connection_vacancy_for_send, is_version_known, packet_id_conflict,
    packet_id_invalid, packet_store_key, received, sent_events, store_holds, store_packet_id,
    store_key_of, stored_packets_of, store_packet_id_of, timer_events, vacancy_of, version_determined,
    acquire_result, packet_id_used, packet_type_number, protocol_version_of, publish_qos_of,
    qos2_handled_of, regulate_result, Connection, Event, Packet, Publish, RoleKind, TimerKind,
};

verus! {

broadcast use vstd::seq_lib::group_to_multiset_ensures;

/// The size of the receive buffer until an attach sets another.
pub const DEFAULT_RECV_BUFFER_SIZE: usize = 4096;

/// The shutdown timeout until an attach sets another, and the one used when
/// a close is requested.
pub const DEFAULT_SHUTDOWN_TIMEOUT_MS: u64 = 5000;

/// Whether every event is one that telling the state machine of a close
/// gives: a released packet id or a cancelled timer.
pub open spec fn closing_events(evs: Seq<Event>) -> bool {
    forall|i: int| 0 <= i < evs.len() ==> (#[trigger] evs[i] is NotifyPacketIdReleased || evs[i] is RequestTimerCancel)
}

/// The packet id that an answer hands out, when it hands one out.
pub open spec fn served_id(r: Response) -> u16 {
    match r {
        Response::PacketId(Ok(v)) => v,
        _ => 0,
    }
}

/// The packet ids that the answers hand out, in order.
pub open spec fn served_ids(bodies: Seq<Response>) -> Seq<u16> {
    bodies.map_values(|r: Response| served_id(r))
}

/// `bodies` are the answers that requests waiting for a packet id got when
/// the state machine went from `c0` to `c1` serving them, oldest first, out
/// of `waiting` requests: each got an id that was free in `c0`, no two the
/// same, the ids handed out are those newly in use, and the service stopped
/// short only once every id was in use.
pub open spec fn serves(c0: Connection, c1: Connection, waiting: nat, bodies: Seq<Response>) -> bool {
    &&& bodies.len() <= waiting
    &&& forall|j: int| 0 <= j < bodies.len() ==> (#[trigger] bodies[j] matches Response::PacketId(Ok(v))
        && v != 0 && !packet_id_used(c0, v))
    &&& served_ids(bodies).no_duplicates()
    &&& bodies.len() < waiting ==> forall|w: u16| w != 0 ==> packet_id_used(c1, w)
    &&& forall|w: u16| packet_id_used(c1, w) <==> (packet_id_used(c0, w) || served_ids(bodies).contains(w))
}

/// What an acquire of a packet id in the state machine `c` gives: the
/// lowest id not in use, or an error when every id is in use.
pub open spec fn acquires_lowest(c: Connection, r: Result<u16, MqttError>) -> bool {
    &&& r matches Ok(v) ==> v != 0 && !packet_id_used(c, v) && forall|w: u16| 0 < w < v ==> packet_id_used(c, w)
    &&& r is Err ==> forall|w: u16| w != 0 ==> packet_id_used(c, w)
}

/// What an acquire of a packet id answers, given what the state machine
/// gave back.
pub open spec fn acquire_answer(r: Result<u16, MqttError>) -> Result<u16, ConnectionError> {
    match r {
        Ok(v) => Ok(v),
        Err(e) => Err(ConnectionError::Mqtt(e)),
    }
}

/// What a regulation for store answers, given what the state machine gave
/// back.
pub open spec fn regulate_answer(r: Result<Publish, MqttError>) -> Result<Publish, ConnectionError> {
    match r {
        Ok(p) => Ok(p),
        Err(e) => Err(ConnectionError::Mqtt(e)),
    }
}

/// The first protocol error among the events, in order.
pub open spec fn first_error_of(evs: Seq<Event>) -> Option<MqttError>
    decreases evs.len(),
{
    if evs.len() == 0 {
        None
    } else {
        let before = first_error_of(evs.drop_last());
        if before is Some {
            before
        } else {
            match evs.last() {
                Event::NotifyError(e) => Some(e),
                _ => None,
            }
        }
    }
}

/// The answer to a request whose events have been processed: the first
/// protocol error among them, if any.
pub open spec fn outcome_of(e: Option<MqttError>) -> Result<(), ConnectionError> {
    match e {
        None => Ok(()),
        Some(x) => Err(ConnectionError::Mqtt(x)),
    }
}

/// The error that a waiting receive request gets when the connection goes:
/// `Transport(Timeout)` when it was not established in time, else `NotConnected`.
pub open spec fn receiver_error(timeout: bool) -> ConnectionError {
    if timeout {
        ConnectionError::Transport(TransportError::Timeout)
    } else {
        ConnectionError::NotConnected
    }
}

/// The answers of `n` waiting receive requests when the connection goes.
pub open spec fn receiver_failures(n: nat, timeout: bool) -> Seq<Response> {
    Seq::new(n, |i: int| Response::Packet(Err(receiver_error(timeout))))
}

/// The answers that end a close: `NotConnected` for each of `receivers`
/// waiting receive requests, then `Ok` for each of `closers` close requests.
pub open spec fn closing_answers(receivers: nat, closers: nat) -> Seq<Response> {
    receiver_failures(receivers, false) + Seq::new(closers, |i: int| Response::Unit(Ok(())))
}

/// The answer to a request whose events have been processed: the first
/// failed transmission of its packets, if any, else the first protocol error
/// among its events, if any.
pub open spec fn run_outcome(send_error: Option<TransportError>, evs: Seq<Event>) -> Result<(), ConnectionError> {
    match send_error {
        Some(e) => Err(ConnectionError::Transport(e)),
        None => outcome_of(first_error_of(evs)),
    }
}

/// The packets that the events ask to send, in order.
pub open spec fn send_packets_of(evs: Seq<Event>) -> Seq<Packet>
    decreases evs.len(),
{
    if evs.len() == 0 {
        Seq::empty()
    } else {
        let before = send_packets_of(evs.drop_last());
        match evs.last() {
            Event::RequestSendPacket { packet, .. } => before.push(packet),
            _ => before,
        }
    }
}

/// A packet that was received, with its type.
pub struct Received {
    pub packet: Packet,
    pub packet_type: PacketType,
}

/// The processing of a list of events from the protocol state machine.
pub struct EventRun {
    remaining: Vec<Event>,
    first_error: Option<MqttError>,
    serve_waiters: bool,
    live_timers: bool,
    shutdown_timeout_ms: u64,
    reply: Option<RequestId>,
    send_error: Option<TransportError>,
    processed: Ghost<Seq<Event>>,
}

/// A queued PUBLISH being sent after a packet id was released.
pub struct QueuedSend {
    packets: Vec<Packet>,
    sent: bool,
    reply: RequestId,
}

/// Work in progress, innermost last.
pub enum Frame {
    /// Events to process.
    Events(EventRun),
    /// Queued PUBLISH packets to send while the peer's receive maximum allows.
    Flush(Option<QueuedSend>),
    /// A received packet to hand to the oldest receive request, once the
    /// events that came with it have been processed, with the first protocol
    /// error among those events.
    Deliver(Option<Received>, Option<MqttError>),
    /// The end of a close: the transport goes and the close requests are answered.
    FinishClose,
}

/// What the endpoint waits for from the application.
#[derive(Clone, Copy)]
pub enum Awaiting {
    Nothing,
    /// Whether an event's packet was sent; if not, the packet id is released.
    Transmit { release: Option<u16>, live: bool },
    /// Whether a queued PUBLISH packet was sent.
    FlushTransmit,
}

/// Which of the protocol timers run.
#[derive(Clone, Copy, Debug, PartialEq, Eq, Structural)]
pub struct Timers {
    pub pingreq_send: bool,
    pub pingreq_recv: bool,
    pub pingresp_recv: bool,
}

impl Timers {
    pub open spec fn armed(self, kind: TimerKind) -> bool {
        match kind {
            TimerKind::PingreqSend => self.pingreq_send,
            TimerKind::PingreqRecv => self.pingreq_recv,
            TimerKind::PingrespRecv => self.pingresp_recv,
        }
    }

    pub open spec fn with(self, kind: TimerKind, on: bool) -> Timers {
        match kind {
            TimerKind::PingreqSend => Timers { pingreq_send: on, ..self },
            TimerKind::PingreqRecv => Timers { pingreq_recv: on, ..self },
            TimerKind::PingrespRecv => Timers { pingresp_recv: on, ..self },
        }
    }

    fn is_armed(&self, kind: TimerKind) -> (r: bool)
        ensures
            r == self.armed(kind),
    {
        match kind {
            TimerKind::PingreqSend => self.pingreq_send,
            TimerKind::PingreqRecv => self.pingreq_recv,
            TimerKind::PingrespRecv => self.pingresp_recv,
        }
    }

    fn set(&mut self, kind: TimerKind, on: bool)
        ensures
            *final(self) == old(self).with(kind, on),
    {
        match kind {
            TimerKind::PingreqSend => self.pingreq_send = on,
            TimerKind::PingreqRecv => self.pingreq_recv = on,
            TimerKind::PingrespRecv => self.pingresp_recv = on,
        }
    }
}

pub open spec fn opt_ids(o: Option<RequestId>) -> Multiset<RequestId> {
    match o {
        Some(id) => Multiset::singleton(id),
        None => Multiset::empty(),
    }
}

/// The request that a frame will answer, if any.
spec fn frame_ids(f: Frame) -> Multiset<RequestId> {
    match f {
        Frame::Events(run) => opt_ids(run.reply),
        Frame::Flush(Some(q)) => Multiset::singleton(q.reply),
        _ => Multiset::empty(),
    }
}

spec fn frames_ids(fs: Seq<Frame>) -> Multiset<RequestId>
    decreases fs.len(),
{
    if fs.len() == 0 {
        Multiset::empty()
    } else {
        frames_ids(fs.drop_last()).add(frame_ids(fs.last()))
    }
}

/// A run of events that answers a request holds, processed and still to
/// process, the events recorded for that request.
spec fn run_recorded(runs: Map<RequestId, Seq<Event>>, f: Frame) -> bool {
    match f {
        Frame::Events(run) => run.reply matches Some(id) ==> runs.contains_key(id)
            && runs[id] == run.processed@ + run.remaining@,
        _ => true,
    }
}

spec fn frame_ok(f: Frame) -> bool {
    match f {
        Frame::Events(run) => run.first_error == first_error_of(run.processed@),
        _ => true,
    }
}

/// Each request held is held once, was accepted and is not answered yet;
/// every answered request was accepted.
pub open spec fn ids_ok(held: Multiset<RequestId>, accepted: Set<RequestId>, answered: Set<RequestId>) -> bool {
    &&& forall|id: RequestId| #[trigger] held.count(id) <= 1
    &&& forall|id: RequestId| #[trigger]
        held.count(id) > 0 ==> accepted.contains(id) && !answered.contains(id)
    &&& forall|id: RequestId| #[trigger] answered.contains(id) ==> accepted.contains(id)
}

proof fn lemma_frames_push(fs: Seq<Frame>, f: Frame)
    ensures
        frames_ids(fs.push(f)) == frames_ids(fs).add(frame_ids(f)),
{
    assert(fs.push(f).drop_last() =~= fs);
}

proof fn lemma_frames_pop(fs: Seq<Frame>)
    requires
        fs.len() > 0,
    ensures
        frames_ids(fs) == frames_ids(fs.subrange(0, fs.len() - 1)).add(frame_ids(fs[fs.len() - 1])),
{
    assert(fs.drop_last() =~= fs.subrange(0, fs.len() - 1));
}

/// The endpoint's state machine.
pub struct EndpointCore {
    connection: Connection,
    role: RoleKind,
    attached: bool,
    read_data: Vec<u8>,
    read_size: usize,
    read_consumed: usize,
    shutdown_timeout_ms: u64,
    queuing_receive_maximum: bool,
    offline_publish: bool,
    connection_mode: Option<Mode>,
    establish_timer: bool,
    timers: Timers,
    recv_filters: Vec<PacketFilter>,
    recv_ids: Vec<RequestId>,
    waiters: Vec<RequestId>,
    close_waiters: Vec<RequestId>,
    queue_packets: Vec<Packet>,
    queue_ids: Vec<RequestId>,
    frames: Vec<Frame>,
    outbox: Vec<Action>,
    reply_ids: Vec<RequestId>,
    reply_bodies: Vec<Response>,
    awaiting: Awaiting,
    accepted: Ghost<Set<RequestId>>,
    answered: Ghost<Set<RequestId>>,
    runs: Ghost<Map<RequestId, Seq<Event>>>,
}

impl EndpointCore {
    /// Whether a transport is attached.
    pub closed spec fn attached(&self) -> bool {
        self.attached
    }

    /// The size of the receive buffer.
    pub closed spec fn capacity(&self) -> nat {
        self.read_data@.len()
    }

    /// How many bytes the receive buffer holds.
    pub closed spec fn size(&self) -> nat {
        self.read_size as nat
    }

    /// How many of the bytes held have been processed.
    pub closed spec fn consumed(&self) -> nat {
        self.read_consumed as nat
    }

    pub closed spec fn shutdown_timeout_ms(&self) -> u64 {
        self.shutdown_timeout_ms
    }

    pub closed spec fn queuing_receive_maximum(&self) -> bool {
        self.queuing_receive_maximum
    }

    /// The mode whose first packet ends the establishment, while the
    /// establishment timer runs.
    pub closed spec fn connection_mode(&self) -> Option<Mode> {
        self.connection_mode
    }

    /// Whether the establishment timer runs.
    pub closed spec fn establish_armed(&self) -> bool {
        self.establish_timer
    }

    pub closed spec fn timers(&self) -> Timers {
        self.timers
    }

    /// The receive requests that wait for a packet, oldest first.
    pub closed spec fn recv_ids(&self) -> Seq<RequestId> {
        self.recv_ids@
    }

    /// The filters of the waiting receive requests, oldest first.
    pub closed spec fn recv_filters(&self) -> Seq<PacketFilter> {
        self.recv_filters@
    }

    /// The requests that wait for a packet id, oldest first.
    pub closed spec fn waiter_ids(&self) -> Seq<RequestId> {
        self.waiters@
    }

    /// The close requests that wait for the close to end.
    pub closed spec fn close_ids(&self) -> Seq<RequestId> {
        self.close_waiters@
    }

    /// The send requests whose PUBLISH waits for the peer's receive maximum.
    pub closed spec fn queued_ids(&self) -> Seq<RequestId> {
        self.queue_ids@
    }

    /// The answers ready to be handed out, in order.
    pub closed spec fn reply_ids(&self) -> Seq<RequestId> {
        self.reply_ids@
    }

    pub closed spec fn reply_bodies(&self) -> Seq<Response> {
        self.reply_bodies@
    }

    /// The plain actions ready to be handed out, in order.
    pub closed spec fn outbox(&self) -> Seq<Action> {
        self.outbox@
    }

    /// How much work is in progress.
    pub closed spec fn depth(&self) -> nat {
        self.frames@.len()
    }

    /// Whether the endpoint waits for the outcome of a transmission.
    pub closed spec fn awaiting_transmit(&self) -> bool {
        !(self.awaiting is Nothing)
    }

    /// The protocol state machine.
    pub closed spec fn connection(&self) -> Connection {
        self.connection
    }

    /// The role that the protocol state machine was made for.
    pub closed spec fn role(&self) -> RoleKind {
        self.role
    }

    /// The receive buffer, every byte of it.
    pub closed spec fn buffer(&self) -> Seq<u8> {
        self.read_data@
    }

    /// The bytes of the buffer not yet handed to the state machine.
    pub closed spec fn unread_bytes(&self) -> Seq<u8> {
        self.read_data@.subrange(self.read_consumed as int, self.read_size as int)
    }

    /// The events still to process of the innermost work, when that is a run
    /// of events.
    pub closed spec fn top_run_pending(&self) -> Option<Seq<Event>> {
        if self.frames@.len() > 0 {
            match self.frames@.last() {
                Frame::Events(run) => Some(run.remaining@),
                _ => None,
            }
        } else {
            None
        }
    }

    /// What the work just below the innermost hands on, when that is a
    /// received packet: the packet, with its type, and the first protocol error.
    pub closed spec fn pending_delivery(&self) -> Option<(Option<(Packet, PacketType)>, Option<MqttError>)> {
        if self.frames@.len() > 1 {
            match self.frames@[self.frames@.len() - 2] {
                Frame::Deliver(Some(r), e) => Some((Some((r.packet, r.packet_type)), e)),
                Frame::Deliver(None, e) => Some((None, e)),
                _ => None,
            }
        } else {
            None
        }
    }

    /// For each request whose answer is the outcome of a run of the state
    /// machine's events, the events of that run, as the machine gave them.
    pub closed spec fn runs(&self) -> Map<RequestId, Seq<Event>> {
        self.runs@
    }

    /// Every request accepted so far.
    pub closed spec fn accepted(&self) -> Set<RequestId> {
        self.accepted@
    }

    /// Every request answered so far.
    pub closed spec fn answered(&self) -> Set<RequestId> {
        self.answered@
    }

    /// The request that the events in progress answer, and the events
    /// processed, when every event of the innermost work has been processed.
    pub closed spec fn finished_run(&self) -> Option<(Option<RequestId>, Seq<Event>, Option<TransportError>)> {
        if self.frames@.len() > 0 {
            match self.frames@.last() {
                Frame::Events(run) => if run.remaining@.len() == 0 {
                    Some((run.reply, run.processed@, run.send_error))
                } else {
                    None
                },
                _ => None,
            }
        } else {
            None
        }
    }

    /// The received packet to hand out, with the first protocol error that
    /// came with it, when that is the innermost work.
    pub closed spec fn delivery(&self) -> Option<(Option<(Packet, PacketType)>, Option<MqttError>)> {
        if self.frames@.len() > 0 {
            match self.frames@.last() {
                Frame::Deliver(Some(r), e) => Some((Some((r.packet, r.packet_type)), e)),
                Frame::Deliver(None, e) => Some((None, e)),
                _ => None,
            }
        } else {
            None
        }
    }

    /// Whether the end of a close is the innermost work.
    pub closed spec fn closing(&self) -> bool {
        self.frames@.len() > 0 && self.frames@.last() is FinishClose
    }

    /// Whether the next event of the innermost work releases a packet id
    /// for the requests that wait for one.
    pub closed spec fn serving_waiters(&self) -> bool {
        self.frames@.len() > 0 && match self.frames@.last() {
            Frame::Events(run) => run.serve_waiters && run.remaining@.len() > 0
                && run.remaining@[0] is NotifyPacketIdReleased,
            _ => false,
        }
    }

    /// The request that the innermost work answers, when that work is a
    /// run of events.
    pub closed spec fn top_run_reply(&self) -> Option<Option<RequestId>> {
        if self.frames@.len() > 0 {
            match self.frames@.last() {
                Frame::Events(run) => Some(run.reply),
                _ => None,
            }
        } else {
            None
        }
    }

    /// Whether the timers that the innermost work starts report when they
    /// fire, when that work is a run of events.
    pub closed spec fn top_run_live(&self) -> Option<bool> {
        if self.frames@.len() > 0 {
            match self.frames@.last() {
                Frame::Events(run) => Some(run.live_timers),
                _ => None,
            }
        } else {
            None
        }
    }

    /// Every request held somewhere, to be answered once.
    pub closed spec fn held(&self) -> Multiset<RequestId> {
        self.recv_ids@.to_multiset().add(self.waiters@.to_multiset()).add(
            self.close_waiters@.to_multiset(),
        ).add(self.queue_ids@.to_multiset()).add(frames_ids(self.frames@)).add(
            self.reply_ids@.to_multiset(),
        )
    }

    /// The invariant, with `extra` requests held outside the state (by work
    /// taken out of it).
    pub closed spec fn wf_with(&self, extra: Multiset<RequestId>) -> bool {
        &&& self.wf_core_with(extra)
        &&& self.close_in_progress()
    }

    /// A close request is held only while its close is in progress: the end
    /// of the close is then the outermost work.
    pub closed spec fn close_in_progress(&self) -> bool {
        &&& self.close_waiters@.len() > 0 ==> self.frames@.len() > 0 && self.frames@[0] is FinishClose
        &&& forall|i: int| 0 < i < self.frames@.len() ==> !(#[trigger] self.frames@[i] is FinishClose)
    }

    /// The invariant but for [`Self::close_in_progress`], which does not hold
    /// while the end of a close is being carried out.
    pub closed spec fn wf_core_with(&self, extra: Multiset<RequestId>) -> bool {
        &&& self.read_consumed <= self.read_size <= self.read_data@.len()
        &&& self.recv_filters@.len() == self.recv_ids@.len()
        &&& self.queue_packets@.len() == self.queue_ids@.len()
        &&& self.reply_ids@.len() == self.reply_bodies@.len()
        &&& forall|i: int| 0 <= i < self.outbox@.len() ==> (#[trigger] self.outbox@[i]).is_plain()
        &&& forall|i: int| 0 <= i < self.frames@.len() ==> frame_ok(#[trigger] self.frames@[i])
        &&& forall|i: int| 0 <= i < self.frames@.len() ==> run_recorded(self.runs@, #[trigger] self.frames@[i])
        &&& (self.awaiting is FlushTransmit ==> self.frames@.len() > 0
            && self.frames@.last() matches Frame::Flush(Some(_)))
        &&& (self.awaiting is Transmit ==> self.frames@.len() > 0 && self.frames@.last() is Events)
        &&& ids_ok(self.held().add(extra), self.accepted@, self.answered@)
    }

    /// The invariant of the state machine.
    pub closed spec fn wf(&self) -> bool {
        self.wf_with(Multiset::empty())
    }

    /// The requests waiting in `self` are those waiting in `o`.
    pub open spec fn same_queues(&self, o: &Self) -> bool {
        &&& self.recv_ids() == o.recv_ids()
        &&& self.recv_filters() == o.recv_filters()
        &&& self.waiter_ids() == o.waiter_ids()
        &&& self.close_ids() == o.close_ids()
        &&& self.queued_ids() == o.queued_ids()
    }

    /// The transport, buffer and options of `self` are those of `o`.
    pub open spec fn same_except_timers(&self, o: &Self) -> bool {
        &&& self.attached() == o.attached()
        &&& self.capacity() == o.capacity()
        &&& self.buffer() == o.buffer()
        &&& self.size() == o.size()
        &&& self.consumed() == o.consumed()
        &&& self.shutdown_timeout_ms() == o.shutdown_timeout_ms()
        &&& self.queuing_receive_maximum() == o.queuing_receive_maximum()
        &&& self.establish_armed() == o.establish_armed()
        &&& self.connection_mode() == o.connection_mode()
    }

    /// The transport, buffer, options and timers of `self` are those of `o`.
    pub open spec fn same_settings(&self, o: &Self) -> bool {
        &&& self.attached() == o.attached()
        &&& self.capacity() == o.capacity()
        &&& self.buffer() == o.buffer()
        &&& self.size() == o.size()
        &&& self.consumed() == o.consumed()
        &&& self.shutdown_timeout_ms() == o.shutdown_timeout_ms()
        &&& self.queuing_receive_maximum() == o.queuing_receive_maximum()
        &&& self.establish_armed() == o.establish_armed()
        &&& self.connection_mode() == o.connection_mode()
        &&& self.timers() == o.timers()
    }

    /// `id` alone is answered, with `response`.
    pub open spec fn answered_alone(&self, id: RequestId, response: Response) -> bool {
        &&& self.reply_ids() == seq![id]
        &&& self.reply_bodies() == seq![response]
    }

    /// Whether offline publishing is on: a PUBLISH is then handed to the
    /// state machine without a transport.
    pub closed spec fn offline_publish(&self) -> bool {
        self.offline_publish
    }

    /// Whether a send of `packet` is refused for want of a transport.
    pub open spec fn refuses_send(&self, packet: Packet) -> bool {
        !self.attached() && !(self.offline_publish() && spec_packet_type(packet) == PacketType::Publish)
    }

    /// Whether the state machine's store already holds a packet under the
    /// packet id under which it would store `packet`.
    pub open spec fn store_conflict(&self, packet: Packet) -> bool {
        match store_key_of(packet) {
            Some(k) => store_holds(self.connection(), k),
            None => false,
        }
    }

    /// What a send of `packet` as request `id`, not refused for want of a
    /// transport, leaves in `next`: a QoS 1 or 2 PUBLISH queued when the
    /// peer's receive maximum is used up (with a transport and queuing on); else, when the store holds its packet id,
    /// the protocol error as the answer; else the state machine's events for
    /// the packet, to be processed to answer the request.
    pub open spec fn send_outcome(&self, next: &Self, id: RequestId, packet: Packet) -> bool {
        let queues = {
            &&& self.attached()
            &&& self.queuing_receive_maximum()
            &&& spec_packet_type(packet) == PacketType::Publish
            &&& store_key_of(packet) is Some
            &&& vacancy_of(self.connection()) == Some(0u16)
        };
        let queued = {
            &&& next.queued_ids() == self.queued_ids().push(id)
            &&& next.reply_ids().len() == 0
            &&& next.depth() == 0
            &&& next.recv_ids() == self.recv_ids()
            &&& next.recv_filters() == self.recv_filters()
            &&& next.waiter_ids() == self.waiter_ids()
            &&& next.close_ids() == self.close_ids()
        };
        let refused = {
            &&& next.reply_ids() == seq![id]
            &&& next.reply_bodies().len() == 1
            &&& (next.reply_bodies()[0] matches Response::Unit(Err(ConnectionError::Mqtt(_))))
            &&& next.depth() == 0
            &&& next.same_queues(self)
        };
        let handed = {
            &&& next.reply_ids().len() == 0
            &&& next.depth() == 1
            &&& next.top_run_reply() == Some(Some(id))
            &&& next.top_run_pending() == Some(sent_events(self.connection(), packet))
            &&& next.top_run_live() == Some(true)
            &&& next.same_queues(self)
        };
        if queues {
            queued
        } else if self.store_conflict(packet) {
            refused
        } else {
            handed
        }
    }

    /// What a step of the work leaves as it was: the buffer and how much of
    /// it is processed, the role and the requests accepted; it attaches no
    /// transport, takes back no answer and sets no request waiting for a
    /// packet.
    pub open spec fn steps_keep(&self, next: &Self) -> bool {
        &&& next.runs() == self.runs()
        &&& forall|x: RequestId| #[trigger] next.recv_ids().contains(x) ==> self.recv_ids().contains(x)
        &&& next.buffer() == self.buffer()
        &&& next.size() == self.size()
        &&& next.consumed() == self.consumed()
        &&& next.role() == self.role()
        &&& next.attached() ==> self.attached()
        &&& next.accepted() == self.accepted()
        &&& self.answered().subset_of(next.answered())
    }

    /// Whether a send of `packet`, not refused for want of a transport,
    /// hands the packet to the state machine: it is neither queued nor
    /// refused for its packet id.
    pub open spec fn send_outcome_hands(&self, packet: Packet) -> bool {
        &&& !(self.attached() && self.queuing_receive_maximum() && spec_packet_type(packet) == PacketType::Publish
            && store_key_of(packet) is Some && vacancy_of(self.connection()) == Some(0u16))
        &&& !self.store_conflict(packet)
    }

    /// Nothing is in progress and nothing waits to be handed out.
    pub open spec fn idle(&self) -> bool {
        &&& self.depth() == 0
        &&& self.outbox().len() == 0
        &&& self.reply_ids().len() == 0
        &&& !self.awaiting_transmit()
    }

    proof fn lemma_wf_with_empty(&self)
        ensures
            self.wf() == self.wf_with(Multiset::empty()),
            self.held().add(Multiset::empty()) == self.held(),
    {
        assert(self.held().add(Multiset::empty()) =~= self.held());
    }

    /// A state machine for the given version and role, with no transport.
    pub fn new(version: Version, role: RoleKind) -> (r: Self)
        ensures
            r.role() == role,
            protocol_version_of(r.connection()) == version,
            forall|w: u16| packet_id_used(r.connection(), w) <==> w == 0,
            r.wf(),
            r.idle(),
            !r.attached(),
            r.capacity() == DEFAULT_RECV_BUFFER_SIZE,
            r.size() == 0,
            r.shutdown_timeout_ms() == DEFAULT_SHUTDOWN_TIMEOUT_MS,
            !r.queuing_receive_maximum(),
            !r.establish_armed(),
            r.recv_ids().len() == 0,
            r.waiter_ids().len() == 0,
            r.close_ids().len() == 0,
            r.queued_ids().len() == 0,
            !r.offline_publish(),
            r.accepted() == Set::<RequestId>::empty(),
            r.answered() == Set::<RequestId>::empty(),
    {
        let r = EndpointCore {
            connection: connection_new(version, role),
            role,
            attached: false,
            read_data: vec![0u8; DEFAULT_RECV_BUFFER_SIZE],
            read_size: 0,
            read_consumed: 0,
            shutdown_timeout_ms: DEFAULT_SHUTDOWN_TIMEOUT_MS,
            queuing_receive_maximum: false,
            offline_publish: false,
            connection_mode: None,
            establish_timer: false,
            timers: Timers { pingreq_send: false, pingreq_recv: false, pingresp_recv: false },
            recv_filters: Vec::new(),
            recv_ids: Vec::new(),
            waiters: Vec::new(),
            close_waiters: Vec::new(),
            queue_packets: Vec::new(),
            queue_ids: Vec::new(),
            frames: Vec::new(),
            outbox: Vec::new(),
            reply_ids: Vec::new(),
            reply_bodies: Vec::new(),
            awaiting: Awaiting::Nothing,
            accepted: Ghost(Set::empty()),
            answered: Ghost(Set::empty()),
            runs: Ghost(Map::empty()),
        };
        proof {
            assert(r.held() =~= Multiset::empty());
            assert(r.held().add(Multiset::empty()) =~= Multiset::empty());
        }
        r
    }

    /// The size of the receive buffer; a buffer handed to [`Self::read_completed`]
    /// has this size.
    pub fn recv_capacity(&self) -> (r: usize)
        ensures
            r == self.capacity(),
    {
        self.read_data.len()
    }

    /// Whether the application is to read from the transport: only while a
    /// transport is attached and a receive request waits; bytes already
    /// read are processed first.
    pub fn recv_poll(&self) -> (r: RecvPoll)
        requires
            self.wf(),
        ensures
            r == (if !self.attached() || self.recv_ids().len() == 0 {
                RecvPoll::Wait
            } else if self.consumed() < self.size() {
                RecvPoll::Buffered
            } else {
                RecvPoll::Read
            }),
    {
        if !self.attached || self.recv_ids.len() == 0 {
            RecvPoll::Wait
        } else if self.read_consumed < self.read_size {
            RecvPoll::Buffered
        } else {
            RecvPoll::Read
        }
    }
}

proof fn lemma_accept(held: Multiset<RequestId>, accepted: Set<RequestId>, answered: Set<RequestId>, id: RequestId)
    requires
        ids_ok(held, accepted, answered),
        !accepted.contains(id),
    ensures
        ids_ok(held.insert(id), accepted.insert(id), answered),
        held.count(id) == 0,
{
    if held.count(id) > 0 {
        assert(accepted.contains(id));
    }
    assert forall|x: RequestId| #[trigger] held.insert(id).count(x) <= 1 by {
        if held.count(x) > 0 {
            assert(accepted.contains(x));
        }
    }
}

impl EndpointCore {
    /// A run of the events, answering `reply` when they are processed.
    fn run_of(events: Vec<Event>, serve_waiters: bool, live_timers: bool, shutdown_timeout_ms: u64, reply: Option<RequestId>) -> (r: Frame)
        ensures
            frame_ok(r),
            frame_ids(r) == opt_ids(reply),
            r matches Frame::Events(run) && run.remaining@ == events@ && run.processed@ == Seq::<Event>::empty()
                && run.reply == reply && run.serve_waiters == serve_waiters && run.send_error is None
                && run.live_timers == live_timers && run.shutdown_timeout_ms == shutdown_timeout_ms,
    {
        Frame::Events(EventRun {
            remaining: events,
            first_error: None,
            serve_waiters,
            live_timers,
            shutdown_timeout_ms,
            reply,
            send_error: None,
            processed: Ghost(Seq::empty()),
        })
    }

    /// Answers `id` at once: the state machine is idle, so the answer is the
    /// only one waiting.
    fn answer_now(&mut self, id: RequestId, response: Response)
        requires
            old(self).wf(),
            old(self).idle(),
            !old(self).accepted().contains(id),
        ensures
            final(self).runs() == old(self).runs(),
            final(self).wf(),
            final(self).reply_ids() == seq![id],
            final(self).reply_bodies() == seq![response],
            final(self).accepted() == old(self).accepted().insert(id),
            final(self).answered() == old(self).answered(),
            final(self).depth() == 0,
            final(self).outbox() == old(self).outbox(),
            !final(self).awaiting_transmit(),
            final(self).same_queues(old(self)),
            final(self).same_settings(old(self)),
            final(self).offline_publish() == old(self).offline_publish(),
            final(self).connection() == old(self).connection(),
            final(self).role() == old(self).role(),
    {
        proof {
            self.lemma_wf_with_empty();
            lemma_accept(self.held(), self.accepted@, self.answered@, id);
        }
        let ghost h = self.held();
        self.reply_ids.push(id);
        self.reply_bodies.push(response);
        self.accepted = Ghost(self.accepted@.insert(id));
        proof {
            assert(self.reply_ids@ =~= seq![id]);
            assert(self.reply_bodies@ =~= seq![response]);
            assert(self.held() =~= h.insert(id));
            self.lemma_wf_with_empty();
        }
    }
}

impl EndpointCore {
    /// The invariant holds once `id`, a request not accepted before, is
    /// held in one more place and counted as accepted.
    proof fn lemma_accept_into(&self, id: RequestId)
        requires
            self.wf(),
            !self.accepted@.contains(id),
        ensures
            ids_ok(self.held().insert(id), self.accepted@.insert(id), self.answered@),
    {
        self.lemma_wf_with_empty();
        lemma_accept(self.held(), self.accepted@, self.answered@, id);
    }

    /// Whether the machine's store holds a packet under the id `k`.
    fn store_has(&self, k: u16) -> (r: bool)
        ensures
            r == store_holds(self.connection(), k),
    {
        let stored = connection_stored_packets(&self.connection);
        let mut i: usize = 0;
        while i < stored.len()
            invariant
                0 <= i <= stored@.len(),
                stored@ == stored_packets_of(self.connection),
                forall|j: int| 0 <= j < i ==> store_packet_id_of(#[trigger] stored@[j]) != k,
            decreases stored.len() - i,
        {
            if store_packet_id(&stored[i]) == k {
                assert(store_packet_id_of(stored@[i as int]) == k);
                return true;
            }
            i += 1;
        }
        false
    }

    /// A send request: refused without a transport, unless it is a PUBLISH
    /// and offline publishing is on; a QoS 1 or 2 PUBLISH is queued while
    /// the peer's receive maximum is used up and queuing is on; a packet
    /// whose packet id the state machine's store already holds is refused
    /// with that protocol error; else the packet goes to the state machine,
    /// whose events are processed next and answer the request.
    fn accept_send(&mut self, id: RequestId, packet: Packet)
        requires
            old(self).wf(),
            old(self).idle(),
            !old(self).accepted().contains(id),
        ensures
            !old(self).refuses_send(packet) && old(self).send_outcome_hands(packet)
                ==> final(self).runs() == old(self).runs().insert(id, sent_events(old(self).connection(), packet)),
            old(self).refuses_send(packet) || !old(self).send_outcome_hands(packet) ==> final(self).runs() == old(self).runs(),
            final(self).role() == old(self).role(),
            final(self).wf(),
            final(self).accepted() == old(self).accepted().insert(id),
            final(self).answered() == old(self).answered(),
            !final(self).awaiting_transmit(),
            final(self).outbox().len() == 0,
            final(self).same_settings(old(self)),
            old(self).refuses_send(packet) ==> final(self).answered_alone(id, Response::Unit(Err(ConnectionError::NotConnected)))
                && final(self).depth() == 0 && final(self).same_queues(old(self)),
            !old(self).refuses_send(packet) ==> old(self).send_outcome(final(self), id, packet),
            packet_type_number(packet) != 3 && packet_type_number(packet) != 6 ==> store_key_of(packet) is None,
            packet_type_number(packet) == 3 ==> (store_key_of(packet) is Some <==> publish_qos_of(packet) > 0),
    {
        let key = packet_store_key(&packet);
        let is_publish = packet_type_of(&packet) == PacketType::Publish;
        if !self.attached && !(self.offline_publish && is_publish) {
            self.answer_now(id, Response::Unit(Err(ConnectionError::NotConnected)));
            return;
        }
        let full = if self.attached && self.queuing_receive_maximum && is_publish && key.is_some() {
            match connection_vacancy_for_send(&self.connection) {
                Some(v) => v == 0,
                None => false,
            }
        } else {
            false
        };
        if !full {
            match key {
                Some(k) => {
                    if self.store_has(k) {
                        self.answer_now(id, Response::Unit(Err(ConnectionError::Mqtt(packet_id_conflict()))));
                        return;
                    }
                },
                None => {},
            }
        }
        proof { self.lemma_accept_into(id); }
        let ghost h = self.held();
        let ghost c0 = self.connection;
        if full {
            self.queue_packets.push(packet);
            self.queue_ids.push(id);
        } else {
            let events = connection_send(&mut self.connection, packet);
            self.runs = Ghost(self.runs@.insert(id, events@));
            let f = Self::run_of(events, true, true, self.shutdown_timeout_ms, Some(id));
            self.frames.push(f);
            proof { lemma_frames_push(Seq::empty(), f); assert(self.frames@ =~= seq![f]); }
        }
        self.accepted = Ghost(self.accepted@.insert(id));
        proof {
            assert(self.held() =~= h.insert(id));
            self.lemma_wf_with_empty();
        }
    }

    /// A receive request waits for a packet while a transport is attached;
    /// without one it is refused.
    fn accept_recv(&mut self, id: RequestId, filter: PacketFilter)
        requires
            old(self).wf(),
            old(self).idle(),
            !old(self).accepted().contains(id),
        ensures
            final(self).runs() == old(self).runs(),
            final(self).connection() == old(self).connection(),
            final(self).role() == old(self).role(),
            final(self).wf(),
            final(self).accepted() == old(self).accepted().insert(id),
            final(self).answered() == old(self).answered(),
            !final(self).awaiting_transmit(),
            final(self).depth() == 0,
            final(self).outbox().len() == 0,
            final(self).same_settings(old(self)),
            final(self).waiter_ids() == old(self).waiter_ids(),
            final(self).close_ids() == old(self).close_ids(),
            final(self).queued_ids() == old(self).queued_ids(),
            !old(self).attached() ==> final(self).answered_alone(id, Response::Packet(Err(ConnectionError::NotConnected)))
                && final(self).same_queues(old(self)),
            old(self).attached() ==> final(self).reply_ids().len() == 0
                && final(self).recv_ids() == old(self).recv_ids().push(id)
                && final(self).recv_filters() == old(self).recv_filters().push(filter),
    {
        if !self.attached {
            self.answer_now(id, Response::Packet(Err(ConnectionError::NotConnected)));
            return;
        }
        proof { self.lemma_accept_into(id); }
        let ghost h = self.held();
        self.recv_filters.push(filter);
        self.recv_ids.push(id);
        self.accepted = Ghost(self.accepted@.insert(id));
        proof {
            assert(self.held() =~= h.insert(id));
            self.lemma_wf_with_empty();
        }
    }

    /// A request for a packet id that waits until one is free: answered at
    /// once when an id is free, else held until an id is released.
    fn accept_packet_id_wait(&mut self, id: RequestId)
        requires
            old(self).wf(),
            old(self).idle(),
            !old(self).accepted().contains(id),
        ensures
            final(self).runs() == old(self).runs(),
            final(self).wf(),
            final(self).accepted() == old(self).accepted().insert(id),
            final(self).answered() == old(self).answered(),
            !final(self).awaiting_transmit(),
            final(self).depth() == 0,
            final(self).outbox().len() == 0,
            final(self).same_settings(old(self)),
            final(self).role() == old(self).role(),
            acquires_lowest(old(self).connection(), acquire_result(old(self).connection())),
            forall|w: u16| packet_id_used(final(self).connection(), w)
                <==> (packet_id_used(old(self).connection(), w)
                    || acquire_result(old(self).connection()) == Ok::<u16, MqttError>(w)),
            acquire_result(old(self).connection()) matches Ok(v) ==> final(self).answered_alone(id, Response::PacketId(Ok(v)))
                && final(self).same_queues(old(self)),
            acquire_result(old(self).connection()) is Err ==> final(self).reply_ids().len() == 0
                && final(self).waiter_ids() == old(self).waiter_ids().push(id)
                && final(self).recv_ids() == old(self).recv_ids()
                && final(self).recv_filters() == old(self).recv_filters()
                && final(self).close_ids() == old(self).close_ids()
                && final(self).queued_ids() == old(self).queued_ids(),
    {
        match connection_acquire_packet_id(&mut self.connection) {
            Ok(pid) => {
                self.answer_now(id, Response::PacketId(Ok(pid)));
            },
            Err(_) => {
                proof { self.lemma_accept_into(id); }
                let ghost h = self.held();
                self.waiters.push(id);
                self.accepted = Ghost(self.accepted@.insert(id));
                proof {
                    assert(self.held() =~= h.insert(id));
                    self.lemma_wf_with_empty();
                }
            },
        }
    }

    /// A release: the packet id is released in the state machine. An id
    /// that was not in use is refused with a protocol error; else the
    /// release's events are processed (serving the requests that wait for an
    /// id) and answer the request, with or without a transport.
    fn accept_release(&mut self, id: RequestId, packet_id: u16)
        requires
            old(self).wf(),
            old(self).idle(),
            !old(self).accepted().contains(id),
            packet_id != 0,
        ensures
            !packet_id_used(old(self).connection(), packet_id) ==> final(self).runs() == old(self).runs(),
            packet_id_used(old(self).connection(), packet_id)
                ==> final(self).runs() == old(self).runs().insert(id, seq![Event::NotifyPacketIdReleased(packet_id)]),
            final(self).role() == old(self).role(),
            forall|w: u16| packet_id_used(final(self).connection(), w)
                <==> (packet_id_used(old(self).connection(), w) && w != packet_id),
            final(self).wf(),
            final(self).accepted() == old(self).accepted().insert(id),
            final(self).answered() == old(self).answered(),
            !final(self).awaiting_transmit(),
            final(self).outbox().len() == 0,
            final(self).same_settings(old(self)),
            final(self).same_queues(old(self)),
            !packet_id_used(old(self).connection(), packet_id) ==> final(self).reply_ids() == seq![id]
                && final(self).reply_bodies().len() == 1
                && (final(self).reply_bodies()[0] matches Response::Unit(Err(ConnectionError::Mqtt(_))))
                && final(self).depth() == 0,
            packet_id_used(old(self).connection(), packet_id) ==> final(self).reply_ids().len() == 0
                && final(self).depth() == 1
                && final(self).top_run_reply() == Some(Some(id))
                && final(self).top_run_pending() == Some(seq![Event::NotifyPacketIdReleased(packet_id)])
                && final(self).top_run_live() == Some(true)
                && final(self).serving_waiters(),
    {
        let events = connection_release_packet_id(&mut self.connection, packet_id);
        if events.len() == 0 {
            self.answer_now(id, Response::Unit(Err(ConnectionError::Mqtt(packet_id_invalid()))));
            return;
        }
        proof { self.lemma_accept_into(id); }
        let ghost h = self.held();
        proof { assert(events@ =~= seq![Event::NotifyPacketIdReleased(packet_id)]); }
        self.runs = Ghost(self.runs@.insert(id, events@));
        let f = Self::run_of(events, true, true, self.shutdown_timeout_ms, Some(id));
        self.frames.push(f);
        proof {
            lemma_frames_push(Seq::empty(), f);
            assert(self.frames@ =~= seq![f]);
        }
        self.accepted = Ghost(self.accepted@.insert(id));
        proof {
            assert(self.held() =~= h.insert(id));
            self.lemma_wf_with_empty();
        }
    }

    /// A close: without a transport it is answered at once; else the
    /// transport is shut down, the state machine is told, and the request
    /// is answered when the close ends.
    fn accept_close(&mut self, id: RequestId)
        requires
            old(self).wf(),
            old(self).idle(),
            !old(self).accepted().contains(id),
        ensures
            final(self).runs() == old(self).runs(),
            final(self).role() == old(self).role(),
            final(self).wf(),
            final(self).accepted() == old(self).accepted().insert(id),
            final(self).answered() == old(self).answered(),
            !final(self).awaiting_transmit(),
            final(self).same_settings(old(self)),
            old(self).close_ids().len() == 0 && !old(self).attached() ==> final(self).answered_alone(id, Response::Unit(Ok(())))
                && final(self).depth() == 0 && final(self).same_queues(old(self)) && final(self).outbox().len() == 0,
            old(self).close_ids().len() == 0 && old(self).attached() ==> final(self).reply_ids().len() == 0
                && final(self).close_ids() == seq![id]
                && final(self).outbox() == seq![Action::Shutdown { timeout_ms: old(self).shutdown_timeout_ms() }]
                && final(self).depth() == 2 && final(self).top_run_reply() == Some(None::<RequestId>)
                && (final(self).top_run_pending() matches Some(evs) && closing_events(evs)),
            old(self).close_ids().len() > 0 ==> final(self).reply_ids().len() == 0
                && final(self).close_ids() == old(self).close_ids().push(id) && final(self).depth() == 0,
    {
        if self.close_waiters.len() > 0 || self.attached {
            proof { self.lemma_accept_into(id); }
            let ghost h = self.held();
            if self.close_waiters.len() > 0 {
                self.close_waiters.push(id);
            } else {
                self.close_waiters.push(id);
                self.outbox.push(Action::Shutdown { timeout_ms: self.shutdown_timeout_ms });
                let events = connection_notify_closed(&mut self.connection);
                let f = Self::run_of(events, true, false, self.shutdown_timeout_ms, None);
                self.frames.push(Frame::FinishClose);
                self.frames.push(f);
                proof {
                    lemma_frames_push(Seq::empty(), Frame::FinishClose);
                    lemma_frames_push(seq![Frame::FinishClose], f);
                    assert(self.frames@ =~= seq![Frame::FinishClose].push(f));
                    assert(self.outbox@ =~= seq![Action::Shutdown { timeout_ms: self.shutdown_timeout_ms }]);
                    assert(self.close_waiters@ =~= seq![id]);
                }
            }
            self.accepted = Ghost(self.accepted@.insert(id));
            proof {
                assert(self.held() =~= h.insert(id));
                self.lemma_wf_with_empty();
            }
        } else {
            self.answer_now(id, Response::Unit(Ok(())));
        }
    }
}

impl EndpointCore {
    /// Gives the protocol state machine the options' PINGREQ interval,
    /// automatic responses, topic alias handling and PINGRESP timeout, and
    /// keeps the options' shutdown timeout and queuing flag.
    fn apply_options(&mut self, options: &ConnectionOption)
        requires
            old(self).wf(),
        ensures
            final(self).runs() == old(self).runs(),
            final(self).buffer() == old(self).buffer(),
            final(self).role() == old(self).role(),
            final(self).wf(),
            final(self).shutdown_timeout_ms() == options@.shutdown_timeout_ms,
            final(self).queuing_receive_maximum() == options@.queuing_receive_maximum,
            final(self).attached() == old(self).attached(),
            final(self).capacity() == old(self).capacity(),
            final(self).size() == old(self).size(),
            final(self).consumed() == old(self).consumed(),
            final(self).establish_armed() == old(self).establish_armed(),
            final(self).connection_mode() == old(self).connection_mode(),
            final(self).timers() == old(self).timers(),
            final(self).same_queues(old(self)),
            final(self).reply_ids() == old(self).reply_ids(),
            final(self).reply_bodies() == old(self).reply_bodies(),
            final(self).outbox() == old(self).outbox(),
            final(self).depth() == old(self).depth(),
            final(self).awaiting_transmit() == old(self).awaiting_transmit(),
            final(self).accepted() == old(self).accepted(),
            final(self).answered() == old(self).answered(),
            final(self).held() == old(self).held(),
    {
        connection_set_pingreq_send_interval(&mut self.connection, *options.pingreq_send_interval_ms());
        connection_set_auto_pub_response(&mut self.connection, *options.auto_pub_response());
        connection_set_auto_ping_response(&mut self.connection, *options.auto_ping_response());
        connection_set_auto_map_topic_alias_send(&mut self.connection, *options.auto_map_topic_alias_send());
        connection_set_auto_replace_topic_alias_send(&mut self.connection, *options.auto_replace_topic_alias_send());
        connection_set_pingresp_recv_timeout(&mut self.connection, *options.pingresp_recv_timeout_ms());
        self.shutdown_timeout_ms = *options.shutdown_timeout_ms();
        self.queuing_receive_maximum = *options.queuing_receive_maximum();
    }

    /// An attach: the options are applied, the receive buffer takes the
    /// options' size when one is given and differs (emptied), the
    /// establishment timer starts when the options give a timeout, the
    /// transport is adopted and the request is answered.
    fn accept_attach(&mut self, id: RequestId, mode: Mode, options: ConnectionOption)
        requires
            old(self).wf(),
            old(self).idle(),
            !old(self).attached(),
            !old(self).accepted().contains(id),
        ensures
            final(self).runs() == old(self).runs(),
            final(self).role() == old(self).role(),
            final(self).wf(),
            final(self).accepted() == old(self).accepted().insert(id),
            final(self).answered() == old(self).answered(),
            !final(self).awaiting_transmit(),
            final(self).depth() == 0,
            final(self).same_queues(old(self)),
            final(self).answered_alone(id, Response::Unit(Ok(()))),
            final(self).attached(),
            final(self).shutdown_timeout_ms() == options@.shutdown_timeout_ms,
            final(self).queuing_receive_maximum() == options@.queuing_receive_maximum,
            final(self).timers() == old(self).timers(),
            final(self).capacity() == old(self).capacity() ==> final(self).buffer() == old(self).buffer(),
            match options@.recv_buffer_size {
                Some(n) => final(self).capacity() == n && (n != old(self).capacity() ==> final(self).size() == 0
                    && final(self).consumed() == 0) && (n == old(self).capacity() ==> final(self).size() == old(self).size()
                    && final(self).consumed() == old(self).consumed()),
                None => final(self).capacity() == old(self).capacity() && final(self).size() == old(self).size()
                    && final(self).consumed() == old(self).consumed(),
            },
            options@.connection_establish_timeout_ms > 0 ==> final(self).establish_armed()
                && final(self).connection_mode() == Some(mode)
                && final(self).outbox() == seq![
                    Action::StartEstablishTimer { duration_ms: options@.connection_establish_timeout_ms },
                    Action::AttachTransport,
                ],
            options@.connection_establish_timeout_ms == 0 ==> final(self).establish_armed() == old(self).establish_armed()
                && final(self).connection_mode() == old(self).connection_mode()
                && final(self).outbox() == seq![Action::AttachTransport],
    {
        let timeout_ms = *options.connection_establish_timeout_ms();
        self.apply_options(&options);
        match *options.recv_buffer_size() {
            Some(n) => {
                if n != self.read_data.len() {
                    self.read_data = vec![0u8; n];
                    self.read_size = 0;
                    self.read_consumed = 0;
                }
            },
            None => {},
        }
        if timeout_ms > 0 {
            self.connection_mode = Some(mode);
            self.establish_timer = true;
            self.outbox.push(Action::StartEstablishTimer { duration_ms: timeout_ms });
        }
        self.attached = true;
        self.outbox.push(Action::AttachTransport);
        let ghost ob = self.outbox@;
        let ghost h = self.held();
        proof {
            self.lemma_accept_into(id);
        }
        self.reply_ids.push(id);
        self.reply_bodies.push(Response::Unit(Ok(())));
        self.accepted = Ghost(self.accepted@.insert(id));
        proof {
            assert(self.reply_ids@ =~= seq![id]);
            assert(self.reply_bodies@ =~= seq![Response::Unit(Ok(()))]);
            assert(self.held() =~= h.insert(id));
            if timeout_ms > 0 {
                assert(self.outbox@ =~= seq![
                    Action::StartEstablishTimer { duration_ms: timeout_ms },
                    Action::AttachTransport,
                ]);
            } else {
                assert(self.outbox@ =~= seq![Action::AttachTransport]);
            }
            self.lemma_wf_with_empty();
        }
    }
}

impl EndpointCore {
    /// Takes a request of the application. Requests that need no transport
    /// work are answered at once; the others are held or turned into work
    /// that [`Self::next_action`] carries out. The packet id 0 is never
    /// released: the state machine's allocator panics on it.
    pub fn handle_request(&mut self, id: RequestId, request: Request)
        requires
            old(self).wf(),
            old(self).idle(),
            !old(self).accepted().contains(id),
            request matches Request::ReleasePacketId(packet_id) ==> packet_id != 0,
        ensures
            final(self).wf(),
            final(self).accepted() == old(self).accepted().insert(id),
            final(self).answered() == old(self).answered(),
            !final(self).awaiting_transmit(),
            final(self).role() == old(self).role(),
            (request is Attach && !old(self).attached()) || final(self).same_settings(old(self)),
            !(request is Close) && !(request is Attach) ==> final(self).outbox().len() == 0,
            !(request is Send) && !(request is ReleasePacketId) ==> final(self).runs() == old(self).runs(),
            final(self).reply_ids().len() > 0 ==> final(self).depth() == 0,
            match request {
                Request::Send(packet) => {
                    &&& packet_type_number(packet) != 3 && packet_type_number(packet) != 6 ==> store_key_of(packet) is None
                    &&& packet_type_number(packet) == 3 ==> (store_key_of(packet) is Some <==> publish_qos_of(packet) > 0)
                    &&& old(self).refuses_send(packet) ==> final(self).answered_alone(id, Response::Unit(Err(ConnectionError::NotConnected)))
                        && final(self).same_queues(old(self))
                    &&& !old(self).refuses_send(packet) ==> old(self).send_outcome(final(self), id, packet)
                    &&& !old(self).refuses_send(packet) && old(self).send_outcome_hands(packet)
                        ==> final(self).runs() == old(self).runs().insert(id, sent_events(old(self).connection(), packet))
                    &&& old(self).refuses_send(packet) || !old(self).send_outcome_hands(packet)
                        ==> final(self).runs() == old(self).runs()
                },
                Request::Recv(filter) => {
                    &&& final(self).connection() == old(self).connection()
                    &&& !old(self).attached() ==> final(self).answered_alone(id, Response::Packet(Err(ConnectionError::NotConnected)))
                    &&& old(self).attached() ==> final(self).reply_ids().len() == 0
                        && final(self).recv_ids() == old(self).recv_ids().push(id)
                        && final(self).recv_filters() == old(self).recv_filters().push(filter)
                },
                Request::AcquirePacketId => {
                    &&& final(self).answered_alone(id, Response::PacketId(acquire_answer(acquire_result(old(self).connection()))))
                    &&& acquires_lowest(old(self).connection(), acquire_result(old(self).connection()))
                    &&& final(self).same_queues(old(self))
                    &&& forall|w: u16| packet_id_used(final(self).connection(), w)
                        <==> (packet_id_used(old(self).connection(), w)
                            || acquire_result(old(self).connection()) == Ok::<u16, MqttError>(w))
                },
                Request::AcquirePacketIdWhenAvailable => {
                    &&& acquires_lowest(old(self).connection(), acquire_result(old(self).connection()))
                    &&& acquire_result(old(self).connection()) matches Ok(v)
                        ==> final(self).answered_alone(id, Response::PacketId(Ok(v)))
                    &&& acquire_result(old(self).connection()) is Err ==> final(self).reply_ids().len() == 0
                        && final(self).waiter_ids() == old(self).waiter_ids().push(id)
                    &&& forall|w: u16| packet_id_used(final(self).connection(), w)
                        <==> (packet_id_used(old(self).connection(), w)
                            || acquire_result(old(self).connection()) == Ok::<u16, MqttError>(w))
                },
                Request::RegisterPacketId(packet_id) => {
                    &&& final(self).reply_ids() == seq![id]
                    &&& final(self).reply_bodies().len() == 1
                    &&& !packet_id_used(old(self).connection(), packet_id)
                        ==> final(self).reply_bodies()[0] == Response::Unit(Ok(()))
                    &&& packet_id_used(old(self).connection(), packet_id)
                        ==> (final(self).reply_bodies()[0] matches Response::Unit(Err(ConnectionError::Mqtt(_))))
                    &&& forall|w: u16| packet_id_used(final(self).connection(), w)
                        <==> (packet_id_used(old(self).connection(), w) || w == packet_id)
                },
                Request::ReleasePacketId(packet_id) => {
                    &&& !packet_id_used(old(self).connection(), packet_id) ==> final(self).reply_ids() == seq![id]
                        && final(self).reply_bodies().len() == 1
                        && (final(self).reply_bodies()[0] matches Response::Unit(Err(ConnectionError::Mqtt(_))))
                    &&& packet_id_used(old(self).connection(), packet_id) ==> final(self).reply_ids().len() == 0
                        && final(self).top_run_reply() == Some(Some(id))
                        && final(self).top_run_pending() == Some(seq![Event::NotifyPacketIdReleased(packet_id)])
                && final(self).top_run_live() == Some(true)
                        && final(self).serving_waiters()
                    &&& forall|w: u16| packet_id_used(final(self).connection(), w)
                        <==> (packet_id_used(old(self).connection(), w) && w != packet_id)
                    &&& final(self).runs() == if packet_id_used(old(self).connection(), packet_id) {
                        old(self).runs().insert(id, seq![Event::NotifyPacketIdReleased(packet_id)])
                    } else {
                        old(self).runs()
                    }
                },
                Request::Close => {
                    &&& old(self).close_ids().len() == 0
                    &&& !old(self).attached() ==> final(self).answered_alone(id, Response::Unit(Ok(())))
                        && final(self).outbox().len() == 0 && final(self).depth() == 0
                    &&& old(self).close_ids().len() == 0 && old(self).attached() ==> final(self).reply_ids().len() == 0
                        && final(self).close_ids() == seq![id]
                        && final(self).outbox() == seq![Action::Shutdown { timeout_ms: old(self).shutdown_timeout_ms() }]
                        && final(self).top_run_reply() == Some(None::<RequestId>)
                        && (final(self).top_run_pending() matches Some(evs) && closing_events(evs))
                    &&& old(self).close_ids().len() > 0 ==> final(self).reply_ids().len() == 0
                        && final(self).close_ids() == old(self).close_ids().push(id)
                },
                Request::Attach { mode, options } => (final(self).capacity() == old(self).capacity()
                    ==> final(self).buffer() == old(self).buffer()) && if old(self).attached() {
                    &&& final(self).answered_alone(id, Response::Unit(Err(ConnectionError::AlreadyConnected)))
                    &&& final(self).same_settings(old(self))
                    &&& final(self).same_queues(old(self))
                    &&& final(self).outbox().len() == 0
                } else {
                    &&& final(self).answered_alone(id, Response::Unit(Ok(())))
                    &&& final(self).attached()
                    &&& final(self).shutdown_timeout_ms() == options@.shutdown_timeout_ms
                    &&& final(self).queuing_receive_maximum() == options@.queuing_receive_maximum
                    &&& options@.recv_buffer_size matches Some(n) ==> final(self).capacity() == n
                    &&& options@.recv_buffer_size is None ==> final(self).capacity() == old(self).capacity()
                    &&& options@.connection_establish_timeout_ms > 0 ==> final(self).establish_armed()
                        && final(self).connection_mode() == Some(mode)
                        && final(self).outbox() == seq![
                            Action::StartEstablishTimer { duration_ms: options@.connection_establish_timeout_ms },
                            Action::AttachTransport,
                        ]
                    &&& options@.connection_establish_timeout_ms == 0 ==> final(self).outbox() == seq![Action::AttachTransport]
                },
                Request::GetStoredPackets => final(self).reply_ids() == seq![id] && final(self).reply_bodies().len() == 1
                    && (final(self).reply_bodies()[0] matches Response::StoredPackets(v)
                        && v@ == stored_packets_of(old(self).connection()))
                    && final(self).connection() == old(self).connection(),
                Request::SetOfflinePublish(enable) => final(self).answered_alone(id, Response::Unit(Ok(())))
                    && final(self).offline_publish() == enable,
                Request::GetQos2PublishHandled => final(self).reply_ids() == seq![id] && final(self).reply_bodies().len() == 1
                    && (final(self).reply_bodies()[0] matches Response::Qos2Handled(ids) && ids@.no_duplicates()
                        && ids@.to_set() == qos2_handled_of(old(self).connection()))
                    && final(self).connection() == old(self).connection(),
                Request::GetReceiveMaximumVacancyForSend => final(self).answered_alone(id,
                    Response::Vacancy(vacancy_of(old(self).connection())))
                    && final(self).connection() == old(self).connection(),
                Request::GetProtocolVersion => final(self).answered_alone(id,
                    Response::ProtocolVersion(protocol_version_of(old(self).connection())))
                    && final(self).connection() == old(self).connection(),
                Request::RegulateForStore(packet) => final(self).answered_alone(id,
                    Response::Regulated(regulate_answer(regulate_result(old(self).connection(), packet))))
                    && final(self).connection() == old(self).connection(),
            },
    {
        match request {
            Request::Send(packet) => self.accept_send(id, packet),
            Request::Recv(filter) => self.accept_recv(id, filter),
            Request::AcquirePacketId => {
                let r = match connection_acquire_packet_id(&mut self.connection) {
                    Ok(pid) => Ok(pid),
                    Err(e) => Err(ConnectionError::Mqtt(e)),
                };
                self.answer_now(id, Response::PacketId(r));
            },
            Request::AcquirePacketIdWhenAvailable => self.accept_packet_id_wait(id),
            Request::RegisterPacketId(packet_id) => {
                let r = match connection_register_packet_id(&mut self.connection, packet_id) {
                    Ok(()) => Ok(()),
                    Err(e) => Err(ConnectionError::Mqtt(e)),
                };
                self.answer_now(id, Response::Unit(r));
            },
            Request::ReleasePacketId(packet_id) => self.accept_release(id, packet_id),
            Request::Close => self.accept_close(id),
            Request::Attach { mode, options } => {
                if self.attached {
                    self.answer_now(id, Response::Unit(Err(ConnectionError::AlreadyConnected)));
                } else {
                    self.accept_attach(id, mode, options);
                }
            },
            Request::GetStoredPackets => {
                let packets = connection_stored_packets(&self.connection);
                self.answer_now(id, Response::StoredPackets(packets));
            },
            Request::SetOfflinePublish(enable) => {
                connection_set_offline_publish(&mut self.connection, enable);
                self.offline_publish = enable;
                self.answer_now(id, Response::Unit(Ok(())));
            },
            Request::GetQos2PublishHandled => {
                let ids = connection_qos2_publish_handled(&self.connection);
                self.answer_now(id, Response::Qos2Handled(ids));
            },
            Request::GetReceiveMaximumVacancyForSend => {
                let v = connection_vacancy_for_send(&self.connection);
                self.answer_now(id, Response::Vacancy(v));
            },
            Request::GetProtocolVersion => {
                let v = connection_protocol_version(&self.connection);
                self.answer_now(id, Response::ProtocolVersion(v));
            },
            Request::RegulateForStore(packet) => {
                let r = match connection_regulate_for_store(&self.connection, packet) {
                    Ok(regulated) => Ok(regulated),
                    Err(e) => Err(ConnectionError::Mqtt(e)),
                };
                self.answer_now(id, Response::Regulated(r));
            },
        }
    }
}

proof fn lemma_first_error_push(p: Seq<Event>, e: Event)
    ensures
        first_error_of(p.push(e)) == (if first_error_of(p) is Some {
            first_error_of(p)
        } else {
            match e {
                Event::NotifyError(x) => Some(x),
                _ => None,
            }
        }),
{
    assert(p.push(e).drop_last() =~= p);
}

proof fn lemma_sends_push(p: Seq<Event>, e: Event)
    ensures
        send_packets_of(p.push(e)) == (match e {
            Event::RequestSendPacket { packet, .. } => send_packets_of(p).push(packet),
            _ => send_packets_of(p),
        }),
{
    assert(p.push(e).drop_last() =~= p);
}

/// The packets that the events ask to send, in order.
fn sends_of(events: Vec<Event>) -> (r: Vec<Packet>)
    ensures
        r@ == send_packets_of(events@),
{
    let ghost orig = events@;
    let mut events = events;
    let mut r: Vec<Packet> = Vec::new();
    let ghost mut k: int = 0;
    assert(orig.take(0) =~= Seq::<Event>::empty());
    assert(orig.skip(0) =~= orig);
    while events.len() > 0
        invariant
            0 <= k <= orig.len(),
            events@ == orig.skip(k),
            r@ == send_packets_of(orig.take(k)),
        decreases events.len(),
    {
        let e = events.remove(0);
        proof {
            assert(orig.take(k + 1) =~= orig.take(k).push(e));
            lemma_sends_push(orig.take(k), e);
            assert(events@ =~= orig.skip(k + 1));
        }
        match e {
            Event::RequestSendPacket { packet, .. } => r.push(packet),
            _ => {},
        }
        proof { k = k + 1; }
    }
    assert(orig.take(k) =~= orig);
    r
}

/// The first packet that the events report as received.
pub open spec fn first_packet_of(evs: Seq<Event>) -> Option<Packet>
    decreases evs.len(),
{
    if evs.len() == 0 {
        None
    } else {
        match evs[0] {
            Event::NotifyPacketReceived(p) => Some(p),
            _ => first_packet_of(evs.drop_first()),
        }
    }
}

/// What a read hands on once its events are processed: the first packet
/// received, with its type, and the first protocol error.
pub open spec fn delivery_of(evs: Seq<Event>) -> (Option<(Packet, PacketType)>, Option<MqttError>) {
    (
        match first_packet_of(evs) {
            Some(p) => Some((p, spec_packet_type(p))),
            None => None,
        },
        first_error_of(evs),
    )
}

/// The first received packet among the events, with its type.
fn first_received(events: &Vec<Event>) -> (r: Option<Received>)
    ensures
        match first_packet_of(events@) {
            Some(p) => r matches Some(rc) && rc.packet == p && rc.packet_type == spec_packet_type(p),
            None => r is None,
        },
{
    let mut i: usize = 0;
    assert(events@.skip(0) =~= events@);
    while i < events.len()
        invariant
            0 <= i <= events@.len(),
            first_packet_of(events@) == first_packet_of(events@.skip(i as int)),
        decreases events.len() - i,
    {
        proof {
            assert(events@.skip(i as int)[0] == events@[i as int]);
            assert(events@.skip(i as int).drop_first() =~= events@.skip(i + 1));
        }
        match &events[i] {
            Event::NotifyPacketReceived(p) => {
                let t = packet_type_of(p);
                return Some(Received { packet: clone_packet(p), packet_type: t });
            },
            _ => {},
        }
        i += 1;
    }
    proof { assert(events@.skip(i as int).len() == 0); }
    None
}

/// The first protocol error among the events.
fn first_error_in(events: &Vec<Event>) -> (r: Option<MqttError>)
    ensures
        r == first_error_of(events@),
{
    let mut acc: Option<MqttError> = None;
    let mut i: usize = 0;
    assert(events@.take(0) =~= Seq::<Event>::empty());
    while i < events.len()
        invariant
            0 <= i <= events@.len(),
            acc == first_error_of(events@.take(i as int)),
        decreases events.len() - i,
    {
        proof {
            assert(events@.take(i + 1) =~= events@.take(i as int).push(events@[i as int]));
            lemma_first_error_push(events@.take(i as int), events@[i as int]);
        }
        if acc.is_none() {
            match &events[i] {
                Event::NotifyError(e) => {
                    acc = Some(*e);
                },
                _ => {},
            }
        }
        i += 1;
    }
    proof { assert(events@.take(i as int) =~= events@); }
    acc
}

impl EndpointCore {
    /// Whether the events about to be processed will release a packet id
    /// when they fail to send their packet.
    pub closed spec fn awaiting_release(&self) -> Option<u16> {
        match self.awaiting {
            Awaiting::Transmit { release, .. } => release,
            _ => None,
        }
    }

    /// Answers the requests that wait for a packet id, oldest first, while
    /// ids are free; once none is free the others keep waiting.
    fn serve_waiters(&mut self, Ghost(extra): Ghost<Multiset<RequestId>>)
        requires
            old(self).wf_with(extra),
        ensures
            final(self).runs() == old(self).runs(),
            final(self).role() == old(self).role(),
            final(self).buffer() == old(self).buffer(),
            final(self).wf_with(extra),
            final(self).held() == old(self).held(),
            exists|k: int| 0 <= k <= old(self).waiter_ids().len()
                && final(self).waiter_ids() == old(self).waiter_ids().skip(k)
                && final(self).reply_ids() == old(self).reply_ids() + old(self).waiter_ids().take(k),
            final(self).reply_bodies().len() >= old(self).reply_bodies().len(),
            forall|i: int| 0 <= i < old(self).reply_bodies().len() ==> final(self).reply_bodies()[i] == old(self).reply_bodies()[i],
            forall|i: int| old(self).reply_bodies().len() <= i < final(self).reply_bodies().len()
                ==> (#[trigger] final(self).reply_bodies()[i] matches Response::PacketId(Ok(_))),
            final(self).reply_bodies().len() - old(self).reply_bodies().len()
                == old(self).waiter_ids().len() - final(self).waiter_ids().len(),
            serves(old(self).connection(), final(self).connection(), old(self).waiter_ids().len(),
                final(self).reply_bodies().skip(old(self).reply_bodies().len() as int)),
            final(self).recv_ids() == old(self).recv_ids(),
            final(self).recv_filters() == old(self).recv_filters(),
            final(self).close_ids() == old(self).close_ids(),
            final(self).queued_ids() == old(self).queued_ids(),
            final(self).same_settings(old(self)),
            final(self).outbox() == old(self).outbox(),
            final(self).frames@ == old(self).frames@,
            final(self).awaiting == old(self).awaiting,
            final(self).accepted() == old(self).accepted(),
            final(self).answered() == old(self).answered(),
    {
        let ghost w0 = self.waiters@;
        let ghost r0 = self.reply_ids@;
        let ghost h0 = self.held();
        let ghost c0 = self.connection;
        let ghost l0 = self.reply_bodies@.len() as int;
        let ghost mut k: int = 0;
        let mut done = false;
        assert(w0.skip(0) =~= w0);
        assert(r0 + w0.take(0) =~= r0);
        assert(self.reply_bodies@.skip(l0) =~= Seq::<Response>::empty());
        assert(served_ids(Seq::<Response>::empty()) =~= Seq::<u16>::empty());
        while self.waiters.len() > 0 && !done
            invariant
                self.wf_with(extra),
                self.held() == h0,
                0 <= k <= w0.len(),
                self.waiters@ == w0.skip(k),
                self.reply_ids@ == r0 + w0.take(k),
                self.reply_bodies@.len() >= old(self).reply_bodies@.len(),
                forall|i: int| 0 <= i < old(self).reply_bodies@.len() ==> self.reply_bodies@[i] == old(self).reply_bodies@[i],
                forall|i: int| old(self).reply_bodies@.len() <= i < self.reply_bodies@.len()
                    ==> (#[trigger] self.reply_bodies@[i] matches Response::PacketId(Ok(_))),
                self.recv_ids@ == old(self).recv_ids@,
                self.recv_filters@ == old(self).recv_filters@,
                self.close_waiters@ == old(self).close_waiters@,
                self.queue_ids@ == old(self).queue_ids@,
                self.same_settings(old(self)),
                self.outbox@ == old(self).outbox@,
                self.frames@ == old(self).frames@,
                self.awaiting == old(self).awaiting,
                self.accepted@ == old(self).accepted@,
                self.answered@ == old(self).answered@,
                c0 == old(self).connection,
                self.role == old(self).role,
                self.runs == old(self).runs,
                l0 == old(self).reply_bodies@.len(),
                self.reply_bodies@.len() == l0 + k,
                serves(c0, self.connection, k as nat, self.reply_bodies@.skip(l0)),
                done ==> forall|w: u16| w != 0 ==> packet_id_used(self.connection, w),
            decreases self.waiters@.len() * 2 + (if done { 0int } else { 1int }),
        {
            let ghost cb = self.connection;
            let ghost bb = self.reply_bodies@.skip(l0);
            let result = connection_acquire_packet_id(&mut self.connection);
            match result {
                Ok(pid) => {
                    let id = self.waiters.remove(0);
                    self.reply_ids.push(id);
                    self.reply_bodies.push(Response::PacketId(Ok(pid)));
                    proof {
                        let nb = self.reply_bodies@.skip(l0);
                        assert(nb =~= bb.push(Response::PacketId(Ok(pid))));
                        assert(served_ids(nb) =~= served_ids(bb).push(pid));
                        assert(!served_ids(bb).contains(pid));
                        assert forall|w: u16| packet_id_used(self.connection, w)
                            <==> (packet_id_used(c0, w) || served_ids(nb).contains(w)) by {
                            if served_ids(nb).contains(w) && w != pid {
                                let j = choose|j: int| 0 <= j < served_ids(nb).len() && served_ids(nb)[j] == w;
                                assert(served_ids(bb)[j] == w);
                            }
                            if w == pid {
                                assert(served_ids(nb)[bb.len() as int] == w);
                            }
                            if served_ids(bb).contains(w) {
                                let j = choose|j: int| 0 <= j < served_ids(bb).len() && served_ids(bb)[j] == w;
                                assert(served_ids(nb)[j] == w);
                            }
                        }
                        assert(w0.take(k + 1) =~= w0.take(k).push(id));
                        assert(self.reply_ids@ =~= r0 + w0.take(k + 1));
                        assert(self.waiters@ =~= w0.skip(k + 1));
                        k = k + 1;
                        assert(self.held() =~= h0);
                    }
                },
                Err(_) => {
                    done = true;
                },
            }
        }
        proof {
            if !done {
                assert(k == w0.len());
            }
        }
        assert(self.waiter_ids() == old(self).waiter_ids().skip(k)
            && self.reply_ids() == old(self).reply_ids() + old(self).waiter_ids().take(k));
    }
}

impl EndpointCore {
    /// One step of a run of events taken off the work: the next event is
    /// processed, or, with none left, the run answers its request with the
    /// first protocol error among its events.
    #[verifier::rlimit(50)]
    fn step_events(&mut self, run: EventRun) -> (r: Action)
        requires
            run_recorded(old(self).runs(), Frame::Events(run)),
            old(self).wf_with(frame_ids(Frame::Events(run))),
            frame_ok(Frame::Events(run)),
            !old(self).awaiting_transmit(),
            old(self).reply_ids().len() == 0,
            old(self).outbox().len() == 0,
        ensures
            run.remaining@.len() > 0 && !(run.remaining@[0] is NotifyPacketIdReleased) ==> final(self).top_run_live() == Some(run.live_timers),
            final(self).runs() == old(self).runs(),
            final(self).role() == old(self).role(),
            final(self).buffer() == old(self).buffer(),
            final(self).wf(),
            final(self).accepted() == old(self).accepted(),
            final(self).answered() == old(self).answered(),
            r is Continue || r is Transmit,
            r is Transmit <==> final(self).awaiting_transmit(),
            run.remaining@.len() == 0 ==> r is Continue && final(self).depth() == old(self).depth()
                && final(self).same_queues(old(self)) && final(self).same_settings(old(self)) && match run.reply {
                    Some(id) => final(self).answered_alone(id, Response::Unit(run_outcome(run.send_error, run.processed@))),
                    None => final(self).reply_ids().len() == 0,
                },
            run.remaining@.len() > 0 && run.serve_waiters && run.remaining@[0] is NotifyPacketIdReleased ==> (exists|k: int|
                0 <= k <= old(self).waiter_ids().len() && final(self).waiter_ids() == old(self).waiter_ids().skip(k)
                    && final(self).reply_ids() == old(self).waiter_ids().take(k)
                    && forall|i: int| 0 <= i < final(self).reply_bodies().len()
                        ==> (#[trigger] final(self).reply_bodies()[i] matches Response::PacketId(Ok(_))))
                && final(self).reply_bodies().len() == old(self).waiter_ids().len() - final(self).waiter_ids().len()
                && serves(old(self).connection(), final(self).connection(), old(self).waiter_ids().len(), final(self).reply_bodies()),
            run.remaining@.len() > 0 ==> final(self).same_except_timers(old(self))
                && final(self).recv_ids() == old(self).recv_ids()
                && final(self).recv_filters() == old(self).recv_filters()
                && final(self).close_ids() == old(self).close_ids()
                && final(self).queued_ids() == old(self).queued_ids()
                && final(self).depth() == old(self).depth() + (if run.remaining@[0] is NotifyPacketIdReleased { 2int } else { 1int })
                && match run.remaining@[0] {
                    Event::NotifyPacketIdReleased(_) => final(self).flush_pending() && final(self).outbox().len() == 0
                        && final(self).timers() == old(self).timers()
                        && (!run.serve_waiters ==> final(self).waiter_ids() == old(self).waiter_ids()
                            && final(self).reply_ids().len() == 0),
                    Event::RequestSendPacket { packet, release_packet_id_if_send_error } => r == Action::Transmit(packet)
                        && final(self).awaiting_release() == release_packet_id_if_send_error
                        && final(self).reply_ids().len() == 0
                        && final(self).outbox().len() == 0 && final(self).timers() == old(self).timers(),
                    Event::RequestTimerReset { kind, duration_ms } => final(self).outbox() == seq![
                        Action::ResetTimer { kind, duration_ms, live: run.live_timers },
                    ] && final(self).timers() == old(self).timers().with(kind, true),
                    Event::RequestTimerCancel(kind) => final(self).outbox() == (if old(self).timers().armed(kind) {
                        seq![Action::CancelTimer(kind)]
                    } else {
                        Seq::<Action>::empty()
                    }) && final(self).timers() == old(self).timers().with(kind, false),
                    Event::RequestClose => final(self).outbox() == seq![Action::Shutdown { timeout_ms: run.shutdown_timeout_ms }]
                        && final(self).timers() == old(self).timers(),
                    _ => final(self).outbox().len() == 0 && final(self).timers() == old(self).timers()
                        && final(self).reply_ids().len() == 0 && final(self).waiter_ids() == old(self).waiter_ids(),
                },
    {
        let mut run = run;
        if run.remaining.len() == 0 {
            let ghost frun = Frame::Events(run);
            let ghost outcome_spec = run_outcome(run.send_error, run.processed@);
            match run.reply {
                Some(id) => {
                    let ghost h = self.held();
                    let outcome = match run.send_error {
                        Some(e) => Err(ConnectionError::Transport(e)),
                        None => match run.first_error {
                            None => Ok(()),
                            Some(e) => Err(ConnectionError::Mqtt(e)),
                        },
                    };
                    self.reply_ids.push(id);
                    self.reply_bodies.push(Response::Unit(outcome));
                    proof {
                        assert(self.reply_ids@ =~= seq![id]);
                        assert(self.reply_bodies@ =~= seq![Response::Unit(outcome)]);
                        assert(outcome == outcome_spec);
                        assert(self.held() =~= h.add(frame_ids(frun)));
                        self.lemma_wf_with_empty();
                    }
                },
                None => {
                    proof {
                        assert(self.held().add(frame_ids(Frame::Events(run))) =~= self.held());
                        self.lemma_wf_with_empty();
                    }
                },
            }
            return Action::Continue;
        }
        let ghost extra = frame_ids(Frame::Events(run));
        let ghost before = run.processed@ + run.remaining@;
        let ev = run.remaining.remove(0);
        proof {
            lemma_first_error_push(run.processed@, ev);
        }
        run.processed = Ghost(run.processed@.push(ev));
        assert(run.processed@ + run.remaining@ =~= before);
        let live = run.live_timers;
        match ev {
            Event::NotifyPacketIdReleased(_) => {
                if run.serve_waiters {
                    assert(self.reply_bodies@.len() == 0);
                    self.serve_waiters(Ghost(extra));
                    assert(self.reply_bodies@.skip(0) =~= self.reply_bodies@);
                } else {
                    assert(self.waiter_ids() == old(self).waiter_ids().skip(0));
                }
                self.push_back(run, Ghost(extra));
                self.push_frame(Frame::Flush(None));
                Action::Continue
            },
            Event::RequestSendPacket { packet, release_packet_id_if_send_error } => {
                self.push_back(run, Ghost(extra));
                self.awaiting = Awaiting::Transmit { release: release_packet_id_if_send_error, live };
                Action::Transmit(packet)
            },
            Event::RequestTimerReset { kind, duration_ms } => {
                self.timers.set(kind, true);
                self.outbox.push(Action::ResetTimer { kind, duration_ms, live });
                self.push_back(run, Ghost(extra));
                Action::Continue
            },
            Event::RequestTimerCancel(kind) => {
                if self.timers.is_armed(kind) {
                    self.outbox.push(Action::CancelTimer(kind));
                }
                self.timers.set(kind, false);
                self.push_back(run, Ghost(extra));
                Action::Continue
            },
            Event::RequestClose => {
                self.outbox.push(Action::Shutdown { timeout_ms: run.shutdown_timeout_ms });
                self.push_back(run, Ghost(extra));
                Action::Continue
            },
            Event::NotifyError(e) => {
                if run.first_error.is_none() {
                    run.first_error = Some(e);
                }
                self.push_back(run, Ghost(extra));
                Action::Continue
            },
            Event::NotifyPacketReceived(_) => {
                self.push_back(run, Ghost(extra));
                Action::Continue
            },
        }
    }

    /// Pushes work that answers no request as the innermost work.
    fn push_frame(&mut self, f: Frame)
        requires
            old(self).wf(),
            frame_ok(f),
            frame_ids(f) == Multiset::<RequestId>::empty(),
            !(f is FinishClose),
            old(self).awaiting is Nothing,
        ensures
            final(self).runs() == old(self).runs(),
            final(self).connection() == old(self).connection(),
            final(self).role() == old(self).role(),
            final(self).wf(),
            final(self).held() == old(self).held(),
            final(self).frames@ == old(self).frames@.push(f),
            final(self).same_queues(old(self)),
            final(self).same_settings(old(self)),
            final(self).reply_ids() == old(self).reply_ids(),
            final(self).reply_bodies() == old(self).reply_bodies(),
            final(self).outbox() == old(self).outbox(),
            final(self).awaiting == old(self).awaiting,
            final(self).accepted() == old(self).accepted(),
            final(self).answered() == old(self).answered(),
    {
        let ghost fs = self.frames@;
        let ghost h = self.held();
        proof { self.lemma_wf_with_empty(); }
        self.frames.push(f);
        proof {
            lemma_frames_push(fs, f);
            assert(self.held() =~= h);
            assert forall|i: int| 0 <= i < self.frames@.len() implies frame_ok(#[trigger] self.frames@[i]) by {
                if i < fs.len() {
                    assert(self.frames@[i] == fs[i]);
                }
            }
            assert forall|i: int| 0 < i < self.frames@.len() implies !(#[trigger] self.frames@[i] is FinishClose) by {
                if i < fs.len() {
                    assert(self.frames@[i] == fs[i]);
                }
            }
            self.lemma_wf_with_empty();
        }
    }

    /// Puts a run whose request is `extra` back as the innermost work.
    fn push_back(&mut self, run: EventRun, Ghost(extra): Ghost<Multiset<RequestId>>)
        requires
            run_recorded(old(self).runs(), Frame::Events(run)),
            old(self).wf_with(extra),
            extra == opt_ids(run.reply),
            frame_ok(Frame::Events(run)),
            !(old(self).awaiting is FlushTransmit),
        ensures
            final(self).runs() == old(self).runs(),
            final(self).role() == old(self).role(),
            final(self).buffer() == old(self).buffer(),
            final(self).connection() == old(self).connection(),
            final(self).wf(),
            final(self).held() == old(self).held().add(extra),
            final(self).depth() == old(self).depth() + 1,
            final(self).frames@ == old(self).frames@.push(Frame::Events(run)),
            final(self).same_queues(old(self)),
            final(self).same_settings(old(self)),
            final(self).reply_ids() == old(self).reply_ids(),
            final(self).reply_bodies() == old(self).reply_bodies(),
            final(self).outbox() == old(self).outbox(),
            final(self).awaiting == old(self).awaiting,
            final(self).accepted() == old(self).accepted(),
            final(self).answered() == old(self).answered(),
    {
        let ghost fs = self.frames@;
        let ghost h = self.held();
        self.frames.push(Frame::Events(run));
        proof {
            lemma_frames_push(fs, Frame::Events(run));
            assert(self.held() =~= h.add(extra));
            assert forall|i: int| 0 <= i < self.frames@.len() implies frame_ok(#[trigger] self.frames@[i]) by {
                if i < fs.len() {
                    assert(self.frames@[i] == fs[i]);
                }
            }
            assert forall|i: int| 0 < i < self.frames@.len() implies !(#[trigger] self.frames@[i] is FinishClose) by {
                if i < fs.len() {
                    assert(self.frames@[i] == fs[i]);
                }
            }
            self.lemma_wf_with_empty();
        }
    }
}


impl EndpointCore {
    /// The send request whose queued PUBLISH is being sent, when that is the
    /// innermost work.
    pub closed spec fn flushing(&self) -> Option<RequestId> {
        if self.frames@.len() > 0 {
            match self.frames@.last() {
                Frame::Flush(Some(q)) => Some(q.reply),
                _ => None,
            }
        } else {
            None
        }
    }

    /// The send request whose queued PUBLISH has no packet left to send,
    /// and whether one of its packets was sent, when that is the innermost work.
    pub closed spec fn flush_done(&self) -> Option<(RequestId, bool)> {
        if self.frames@.len() > 0 {
            match self.frames@.last() {
                Frame::Flush(Some(q)) => if q.packets@.len() == 0 {
                    Some((q.reply, q.sent))
                } else {
                    None
                },
                _ => None,
            }
        } else {
            None
        }
    }

    /// The next packet of a queued PUBLISH to send, when that is the innermost work.
    pub closed spec fn flush_next(&self) -> Option<Packet> {
        if self.frames@.len() > 0 {
            match self.frames@.last() {
                Frame::Flush(Some(q)) => if q.packets@.len() > 0 {
                    Some(q.packets@[0])
                } else {
                    None
                },
                _ => None,
            }
        } else {
            None
        }
    }

    /// The PUBLISH packets that wait for the peer's receive maximum, oldest first.
    pub closed spec fn queued_packets(&self) -> Seq<Packet> {
        self.queue_packets@
    }

    /// The packets of the queued PUBLISH being sent that are still to go out.
    pub closed spec fn flush_packets(&self) -> Option<Seq<Packet>> {
        if self.frames@.len() > 0 {
            match self.frames@.last() {
                Frame::Flush(Some(q)) => Some(q.packets@),
                _ => None,
            }
        } else {
            None
        }
    }

    /// Whether the oldest queued PUBLISH goes now: one waits and the peer's
    /// receive maximum has room.
    pub open spec fn flush_goes(&self) -> bool {
        &&& self.queued_ids().len() > 0
        &&& vacancy_of(self.connection()) matches Some(v)
        &&& v > 0
    }

    /// What starting the oldest queued PUBLISH leaves in `next`: it leaves
    /// the queue; when the state machine's store holds its packet id, its
    /// request is answered with that protocol error and the next one is
    /// taken up; else the packets that the state machine asks to send for
    /// it are to be sent.
    pub open spec fn flush_starts(&self, next: &Self) -> bool {
        let q0 = self.queued_ids()[0];
        let packet = self.queued_packets()[0];
        &&& next.queued_ids() == self.queued_ids().skip(1)
        &&& if self.store_conflict(packet) {
            &&& next.reply_ids() == seq![q0]
            &&& next.reply_bodies().len() == 1
            &&& (next.reply_bodies()[0] matches Response::Unit(Err(ConnectionError::Mqtt(_))))
            &&& next.flush_pending()
        } else {
            &&& next.reply_ids().len() == 0
            &&& next.flushing() == Some(q0)
            &&& next.flush_packets() == Some(send_packets_of(sent_events(self.connection(), packet)))
        }
    }

    /// Whether the innermost work is to start sending the oldest queued PUBLISH.
    pub closed spec fn flush_pending(&self) -> bool {
        self.frames@.len() > 0 && self.frames@.last() == Frame::Flush(None)
    }

    /// The next event of the innermost work, with the liveness of the timers
    /// it starts and the timeout of the shutdowns it asks for.
    pub closed spec fn next_event(&self) -> Option<(Event, bool, u64)> {
        if self.frames@.len() > 0 {
            match self.frames@.last() {
                Frame::Events(run) => if run.remaining@.len() > 0 {
                    Some((run.remaining@[0], run.live_timers, run.shutdown_timeout_ms))
                } else {
                    None
                },
                _ => None,
            }
        } else {
            None
        }
    }

    /// Nothing waits to be handed out and some work is in progress.
    pub open spec fn stepping(&self) -> bool {
        &&& self.reply_ids().len() == 0
        &&& self.outbox().len() == 0
        &&& self.depth() > 0
    }

    /// Whether a received packet of type `t` ends the establishment now.
    pub open spec fn ends_establishment_now(&self, t: PacketType) -> bool {
        &&& self.establish_armed()
        &&& match self.connection_mode() {
            Some(m) => ends_establishment(m, t),
            None => false,
        }
    }

    /// Whether a received packet of type `t` goes to the oldest receive request.
    pub open spec fn delivers_to_oldest(&self, t: PacketType) -> bool {
        self.recv_ids().len() > 0 && self.recv_filters()[0].accepts(t)
    }

    /// Takes the innermost work out.
    fn take_top(&mut self) -> (f: Frame)
        requires
            old(self).wf(),
            old(self).depth() > 0,
            !old(self).awaiting_transmit(),
        ensures
            run_recorded(old(self).runs(), f),
            final(self).runs() == old(self).runs(),
            final(self).role() == old(self).role(),
            final(self).buffer() == old(self).buffer(),
            final(self).wf_core_with(frame_ids(f)),
            !(f is FinishClose) ==> final(self).wf_with(frame_ids(f)),
            f is FinishClose ==> final(self).depth() == 0,
            frame_ok(f),
            f == old(self).frames@.last(),
            final(self).frames@ == old(self).frames@.drop_last(),
            final(self).depth() == old(self).depth() - 1,
            final(self).same_queues(old(self)),
            final(self).same_settings(old(self)),
            final(self).reply_ids() == old(self).reply_ids(),
            final(self).reply_bodies() == old(self).reply_bodies(),
            final(self).outbox() == old(self).outbox(),
            !final(self).awaiting_transmit(),
            final(self).accepted() == old(self).accepted(),
            final(self).connection() == old(self).connection(),
            final(self).queued_packets() == old(self).queued_packets(),
            final(self).answered() == old(self).answered(),
    {
        let ghost fs = self.frames@;
        let ghost h = self.held();
        proof {
            lemma_frames_pop(fs);
            self.lemma_wf_with_empty();
            assert(frame_ok(fs[fs.len() - 1]));
        }
        let f = match self.frames.pop() {
            Some(f) => f,
            None => Frame::FinishClose,
        };
        proof {
            assert(self.frames@ =~= fs.drop_last());
            assert(self.held().add(frame_ids(f)) =~= h);
            assert forall|i: int| 0 <= i < self.frames@.len() implies frame_ok(#[trigger] self.frames@[i]) by {
                assert(self.frames@[i] == fs[i]);
            }
        }
        f
    }

    /// One step of sending the queued PUBLISH packets taken off the work:
    /// the oldest is handed to the state machine while the peer's receive
    /// maximum has room, its packets are sent one by one, and its request
    /// is answered `Ok` when one of them was sent, `NotConnected` otherwise.
    fn step_flush(&mut self, q: Option<QueuedSend>) -> (r: Action)
        requires
            old(self).wf_with(frame_ids(Frame::Flush(q))),
            !old(self).awaiting_transmit(),
            old(self).reply_ids().len() == 0,
        ensures
            final(self).runs() == old(self).runs(),
            final(self).role() == old(self).role(),
            final(self).buffer() == old(self).buffer(),
            final(self).wf(),
            final(self).accepted() == old(self).accepted(),
            final(self).answered() == old(self).answered(),
            r is Continue || r is Transmit,
            r is Transmit <==> final(self).awaiting_transmit(),
            final(self).outbox() == old(self).outbox(),
            final(self).recv_ids() == old(self).recv_ids(),
            final(self).recv_filters() == old(self).recv_filters(),
            final(self).waiter_ids() == old(self).waiter_ids(),
            final(self).close_ids() == old(self).close_ids(),
            final(self).same_settings(old(self)),
            match q {
                None => if old(self).flush_goes() {
                    &&& final(self).depth() == old(self).depth() + 1
                    &&& old(self).flush_starts(final(self))
                } else {
                    &&& final(self).queued_ids() == old(self).queued_ids()
                    &&& final(self).depth() == old(self).depth()
                    &&& final(self).reply_ids().len() == 0
                },
                Some(qs) => final(self).queued_ids() == old(self).queued_ids() && if qs.packets@.len() == 0 {
                    &&& r is Continue
                    &&& final(self).answered_alone(qs.reply, Response::Unit(if qs.sent {
                        Ok(())
                    } else {
                        Err(ConnectionError::NotConnected)
                    }))
                    &&& final(self).flush_pending()
                    &&& final(self).depth() == old(self).depth() + 1
                } else {
                    &&& r == Action::Transmit(qs.packets@[0])
                    &&& final(self).reply_ids().len() == 0
                    &&& final(self).flushing() == Some(qs.reply)
                    &&& final(self).depth() == old(self).depth() + 1
                },
            },
    {
        let ghost extra = frame_ids(Frame::Flush(q));
        let ghost h = self.held();
        let ghost fs = self.frames@;
        match q {
            None => {
                let go = self.queue_ids.len() > 0 && match connection_vacancy_for_send(&self.connection) {
                    Some(v) => v > 0,
                    None => false,
                };
                if go {
                    let packet = self.queue_packets.remove(0);
                    let id = self.queue_ids.remove(0);
                    let conflict = match packet_store_key(&packet) {
                        Some(k) => self.store_has(k),
                        None => false,
                    };
                    if conflict {
                        self.reply_ids.push(id);
                        self.reply_bodies.push(Response::Unit(Err(ConnectionError::Mqtt(packet_id_conflict()))));
                        self.frames.push(Frame::Flush(None));
                        proof {
                            lemma_frames_push(fs, Frame::Flush(None));
                            assert(self.queue_ids@ =~= old(self).queue_ids@.skip(1));
                            assert(self.reply_ids@ =~= seq![id]);
                            assert(self.held() =~= h);
                        }
                    } else {
                        let events = connection_send(&mut self.connection, packet);
                        let packets = sends_of(events);
                        let f = Frame::Flush(Some(QueuedSend { packets, sent: false, reply: id }));
                        self.frames.push(f);
                        proof {
                            lemma_frames_push(fs, f);
                            assert(self.queue_ids@ =~= old(self).queue_ids@.skip(1));
                            assert(self.held() =~= h);
                        }
                    }
                } else {
                    proof { assert(self.held() =~= h.add(extra)); }
                }
                proof {
                    assert forall|i: int| 0 <= i < self.frames@.len() implies frame_ok(#[trigger] self.frames@[i]) by {
                        if i < fs.len() {
                            assert(self.frames@[i] == fs[i]);
                        }
                    }
                    self.lemma_wf_with_empty();
                }
                Action::Continue
            },
            Some(qs) => {
                let mut qs = qs;
                if qs.packets.len() > 0 {
                    let packet = qs.packets.remove(0);
                    let f = Frame::Flush(Some(qs));
                    self.frames.push(f);
                    self.awaiting = Awaiting::FlushTransmit;
                    proof {
                        lemma_frames_push(fs, f);
                        assert(self.held() =~= h.add(extra));
                        assert forall|i: int| 0 <= i < self.frames@.len() implies frame_ok(#[trigger] self.frames@[i]) by {
                            if i < fs.len() {
                                assert(self.frames@[i] == fs[i]);
                            }
                        }
                        self.lemma_wf_with_empty();
                    }
                    Action::Transmit(packet)
                } else {
                    let outcome = if qs.sent {
                        Ok(())
                    } else {
                        Err(ConnectionError::NotConnected)
                    };
                    self.reply_ids.push(qs.reply);
                    self.reply_bodies.push(Response::Unit(outcome));
                    self.frames.push(Frame::Flush(None));
                    proof {
                        lemma_frames_push(fs, Frame::Flush(None));
                        assert(self.reply_ids@ =~= seq![qs.reply]);
                        assert(self.reply_bodies@ =~= seq![Response::Unit(outcome)]);
                        assert(self.held() =~= h.add(extra));
                        assert forall|i: int| 0 <= i < self.frames@.len() implies frame_ok(#[trigger] self.frames@[i]) by {
                            if i < fs.len() {
                                assert(self.frames@[i] == fs[i]);
                            }
                        }
                        self.lemma_wf_with_empty();
                    }
                    Action::Continue
                }
            },
        }
    }
}


impl EndpointCore {
    /// Hands a received packet on, once the events that came with it have
    /// been processed: a CONNACK (client) or CONNECT (server) stops the
    /// establishment timer, and the packet answers the oldest receive
    /// request when that request's filter accepts it; else no request is
    /// answered and the packet is dropped.
    fn step_deliver(&mut self, d: Option<Received>, err: Option<MqttError>)
        requires
            old(self).wf(),
            !old(self).awaiting_transmit(),
            old(self).reply_ids().len() == 0,
            old(self).outbox().len() == 0,
        ensures
            final(self).runs() == old(self).runs(),
            final(self).role() == old(self).role(),
            final(self).buffer() == old(self).buffer(),
            final(self).wf(),
            final(self).accepted() == old(self).accepted(),
            final(self).answered() == old(self).answered(),
            !final(self).awaiting_transmit(),
            final(self).depth() == old(self).depth(),
            final(self).waiter_ids() == old(self).waiter_ids(),
            final(self).close_ids() == old(self).close_ids(),
            final(self).queued_ids() == old(self).queued_ids(),
            final(self).attached() == old(self).attached(),
            final(self).capacity() == old(self).capacity(),
            final(self).size() == old(self).size(),
            final(self).consumed() == old(self).consumed(),
            final(self).shutdown_timeout_ms() == old(self).shutdown_timeout_ms(),
            final(self).queuing_receive_maximum() == old(self).queuing_receive_maximum(),
            final(self).timers() == old(self).timers(),
            match d {
                None => {
                    &&& final(self).same_settings(old(self))
                    &&& final(self).outbox().len() == 0
                    &&& match err {
                        Some(e) => if old(self).recv_ids().len() > 0 {
                            &&& final(self).recv_ids() == old(self).recv_ids().skip(1)
                            &&& final(self).recv_filters() == old(self).recv_filters().skip(1)
                            &&& final(self).answered_alone(old(self).recv_ids()[0], Response::Packet(Err(ConnectionError::Mqtt(e))))
                        } else {
                            final(self).same_queues(old(self)) && final(self).reply_ids().len() == 0
                        },
                        None => final(self).same_queues(old(self)) && final(self).reply_ids().len() == 0,
                    }
                },
                Some(rp) => {
                    &&& old(self).ends_establishment_now(rp.packet_type) ==> !final(self).establish_armed()
                        && final(self).connection_mode() is None
                        && final(self).outbox() == seq![Action::CancelEstablishTimer]
                    &&& !old(self).ends_establishment_now(rp.packet_type) ==> final(self).establish_armed()
                        == old(self).establish_armed() && final(self).connection_mode() == old(self).connection_mode()
                        && final(self).outbox().len() == 0
                    &&& old(self).delivers_to_oldest(rp.packet_type) ==> final(self).recv_ids() == old(self).recv_ids().skip(1)
                        && final(self).recv_filters() == old(self).recv_filters().skip(1)
                        && final(self).answered_alone(old(self).recv_ids()[0], Response::Packet(Ok(rp.packet)))
                    &&& !old(self).delivers_to_oldest(rp.packet_type) ==> final(self).recv_ids() == old(self).recv_ids()
                        && final(self).recv_filters() == old(self).recv_filters()
                        && final(self).reply_ids().len() == 0
                },
            },
    {
        match d {
            None => {
                match err {
                    Some(e) => {
                        if self.recv_ids.len() > 0 {
                            let ghost h = self.held();
                            let id = self.recv_ids.remove(0);
                            let _ = self.recv_filters.remove(0);
                            self.reply_ids.push(id);
                            self.reply_bodies.push(Response::Packet(Err(ConnectionError::Mqtt(e))));
                            proof {
                                assert(self.reply_bodies@ =~= seq![Response::Packet(Err(ConnectionError::Mqtt(e)))]);
                                assert(self.recv_ids@ =~= old(self).recv_ids@.skip(1));
                                assert(self.recv_filters@ =~= old(self).recv_filters@.skip(1));
                                assert(self.reply_ids@ =~= seq![id]);
                                assert(self.held() =~= h);
                            }
                        }
                    },
                    None => {},
                }
            },
            Some(rp) => {
                if self.establish_timer {
                    match self.connection_mode {
                        Some(m) => {
                            if establishment_ends(m, rp.packet_type) {
                                self.establish_timer = false;
                                self.connection_mode = None;
                                self.outbox.push(Action::CancelEstablishTimer);
                                proof { assert(self.outbox@ =~= seq![Action::CancelEstablishTimer]); }
                            }
                        },
                        None => {},
                    }
                }
                if self.recv_ids.len() > 0 && self.recv_filters[0].matches_packet_type(rp.packet_type) {
                    let ghost h = self.held();
                    let id = self.recv_ids.remove(0);
                    let _ = self.recv_filters.remove(0);
                    self.reply_ids.push(id);
                    self.reply_bodies.push(Response::Packet(Ok(rp.packet)));
                    proof {
                        assert(self.reply_bodies@ =~= seq![Response::Packet(Ok(rp.packet))]);
                        assert(self.recv_ids@ =~= old(self).recv_ids@.skip(1));
                        assert(self.recv_filters@ =~= old(self).recv_filters@.skip(1));
                        assert(self.reply_ids@ =~= seq![id]);
                        assert(self.held() =~= h);
                    }
                }
            },
        }
        proof { self.lemma_wf_with_empty(); }
    }

    /// Ends a close: the transport goes, every waiting receive request is
    /// answered `NotConnected` and every close request `Ok`, each in the
    /// order they came.
    fn finish_close(&mut self)
        requires
            old(self).wf_core_with(Multiset::empty()),
            old(self).depth() == 0,
            !old(self).awaiting_transmit(),
            old(self).reply_ids().len() == 0,
            old(self).outbox().len() == 0,
        ensures
            final(self).runs() == old(self).runs(),
            final(self).role() == old(self).role(),
            final(self).buffer() == old(self).buffer(),
            final(self).wf(),
            final(self).accepted() == old(self).accepted(),
            final(self).answered() == old(self).answered(),
            !final(self).awaiting_transmit(),
            final(self).depth() == old(self).depth(),
            !final(self).attached(),
            final(self).outbox() == seq![Action::DetachTransport],
            final(self).close_ids().len() == 0,
            final(self).recv_ids().len() == 0,
            final(self).reply_ids() == old(self).recv_ids() + old(self).close_ids(),
            final(self).reply_bodies() == closing_answers(old(self).recv_ids().len(), old(self).close_ids().len()),
            final(self).waiter_ids() == old(self).waiter_ids(),
            final(self).queued_ids() == old(self).queued_ids(),
            final(self).same_except_timers_and_transport(old(self)),
            final(self).timers() == old(self).timers(),
    {
        let ghost h = self.held();
        let ghost nr = self.recv_ids@.len();
        let ghost nc = self.close_waiters@.len();
        let ghost rids = self.recv_ids@;
        let ghost cids = self.close_waiters@;
        self.fail_receivers(false);
        let n = self.close_waiters.len();
        let mut oks: Vec<Response> = Vec::new();
        while oks.len() < n
            invariant
                oks@.len() <= n,
                forall|j: int| 0 <= j < oks@.len() ==> #[trigger] oks@[j] == Response::Unit(Ok(())),
            decreases n - oks@.len(),
        {
            oks.push(Response::Unit(Ok(())));
        }
        let mut ids: Vec<RequestId> = Vec::new();
        std::mem::swap(&mut ids, &mut self.close_waiters);
        self.reply_ids.append(&mut ids);
        self.reply_bodies.append(&mut oks);
        proof {
            assert(self.reply_bodies@ =~= closing_answers(nr, nc));
        }
        self.attached = false;
        self.outbox.push(Action::DetachTransport);
        proof {
            assert(self.outbox@ =~= seq![Action::DetachTransport]);
            assert(self.reply_ids@ =~= rids + cids);
            vstd::seq_lib::lemma_multiset_commutative(rids, cids);
            assert(self.held() =~= h);
            self.lemma_wf_with_empty();
        }
    }

    /// The buffer, options and establishment state of `self` are those of `o`.
    pub open spec fn same_except_timers_and_transport(&self, o: &Self) -> bool {
        &&& self.capacity() == o.capacity()
        &&& self.buffer() == o.buffer()
        &&& self.size() == o.size()
        &&& self.consumed() == o.consumed()
        &&& self.shutdown_timeout_ms() == o.shutdown_timeout_ms()
        &&& self.queuing_receive_maximum() == o.queuing_receive_maximum()
        &&& self.establish_armed() == o.establish_armed()
        &&& self.connection_mode() == o.connection_mode()
    }
}


impl EndpointCore {
    /// Whether the endpoint waits for the outcome of a queued PUBLISH packet.
    pub closed spec fn awaiting_flush(&self) -> bool {
        self.awaiting is FlushTransmit
    }

    /// Whether a packet of the queued PUBLISH being sent was sent.
    pub closed spec fn flush_sent(&self) -> Option<bool> {
        if self.frames@.len() > 0 {
            match self.frames@.last() {
                Frame::Flush(Some(q)) => Some(q.sent),
                _ => None,
            }
        } else {
            None
        }
    }

    /// Puts work taken out back as the innermost work.
    fn restore_top(&mut self, f: Frame, Ghost(extra): Ghost<Multiset<RequestId>>)
        requires
            run_recorded(old(self).runs(), f),
            old(self).wf_with(extra),
            extra == frame_ids(f),
            frame_ok(f),
            !(f is FinishClose),
            old(self).awaiting is Nothing,
        ensures
            final(self).runs() == old(self).runs(),
            final(self).connection() == old(self).connection(),
            final(self).role() == old(self).role(),
            final(self).buffer() == old(self).buffer(),
            final(self).wf(),
            final(self).frames@ == old(self).frames@.push(f),
            final(self).same_queues(old(self)),
            final(self).same_settings(old(self)),
            final(self).reply_ids() == old(self).reply_ids(),
            final(self).reply_bodies() == old(self).reply_bodies(),
            final(self).outbox() == old(self).outbox(),
            final(self).awaiting == old(self).awaiting,
            final(self).accepted() == old(self).accepted(),
            final(self).answered() == old(self).answered(),
    {
        let ghost fs = self.frames@;
        let ghost h = self.held();
        self.frames.push(f);
        proof {
            lemma_frames_push(fs, f);
            assert(self.held() =~= h.add(extra));
            assert forall|i: int| 0 <= i < self.frames@.len() implies frame_ok(#[trigger] self.frames@[i]) by {
                if i < fs.len() {
                    assert(self.frames@[i] == fs[i]);
                }
            }
            assert forall|i: int| 0 < i < self.frames@.len() implies !(#[trigger] self.frames@[i] is FinishClose) by {
                if i < fs.len() {
                    assert(self.frames@[i] == fs[i]);
                }
            }
            self.lemma_wf_with_empty();
        }
    }

    /// The outcome of the last `Transmit`. A failed transmission of an
    /// event's packet becomes the answer of the request whose events these
    /// are, unless an earlier one already did, and releases the packet's
    /// packet id, if it carries one: the events of that release are
    /// processed next (without serving the requests that wait for an id). A
    /// queued PUBLISH notes whether one of its packets was sent.
    pub fn transmit_completed(&mut self, result: Result<(), TransportError>)
        requires
            old(self).wf(),
            old(self).awaiting_transmit(),
        ensures
            final(self).runs() == old(self).runs(),
            old(self).steps_keep(final(self)),
            final(self).role() == old(self).role(),
            final(self).wf(),
            !final(self).awaiting_transmit(),
            final(self).accepted() == old(self).accepted(),
            final(self).answered() == old(self).answered(),
            final(self).reply_ids() == old(self).reply_ids(),
            final(self).reply_bodies() == old(self).reply_bodies(),
            final(self).outbox() == old(self).outbox(),
            final(self).same_queues(old(self)),
            final(self).same_settings(old(self)),
            result is Err && old(self).awaiting_release() is Some ==> final(self).depth() == old(self).depth() + 1
                && final(self).top_run_reply() == Some(None::<RequestId>)
                && (final(self).top_run_pending() matches Some(evs) && evs.len() <= 1
                    && (evs.len() == 1 ==> evs[0] == Event::NotifyPacketIdReleased(old(self).awaiting_release().unwrap()))),
            result is Err && old(self).awaiting_release() is Some && old(self).awaiting_release().unwrap() != 0 ==> (forall|w: u16|
                packet_id_used(final(self).connection(), w) <==> (packet_id_used(old(self).connection(), w)
                    && w != old(self).awaiting_release().unwrap()))
                && (final(self).top_run_pending() matches Some(evs)
                    && (evs.len() == 1 <==> packet_id_used(old(self).connection(), old(self).awaiting_release().unwrap()))),
            !(result is Err && old(self).awaiting_release() is Some) ==> final(self).depth() == old(self).depth()
                && final(self).connection() == old(self).connection(),
            !old(self).awaiting_flush() ==> final(self).send_error_at(old(self).depth() - 1) == match (
                old(self).send_error_at(old(self).depth() - 1),
                result,
            ) {
                (Some(None), Err(e)) => Some(Some(e)),
                (x, _) => x,
            },
            old(self).awaiting_flush() ==> final(self).flushing() == old(self).flushing()
                && final(self).flush_sent() == Some(old(self).flush_sent().unwrap() || result is Ok),
    {
        match self.awaiting {
            Awaiting::Transmit { release, live } => {
                self.awaiting = Awaiting::Nothing;
                let failed = result.is_err();
                let f = self.take_top();
                let ghost extra = frame_ids(f);
                let f2 = match f {
                    Frame::Events(run) => {
                        let mut run = run;
                        if run.send_error.is_none() {
                            match result {
                                Err(e) => run.send_error = Some(e),
                                Ok(()) => {},
                            }
                        }
                        Frame::Events(run)
                    },
                    other => other,
                };
                self.restore_top(f2, Ghost(extra));
                if failed {
                    match release {
                        Some(pid) => {
                            // The id 0 is never handed out, so there is nothing to release.
                            let events = if pid != 0 {
                                connection_release_packet_id(&mut self.connection, pid)
                            } else {
                                Vec::new()
                            };
                            let f = Self::run_of(events, false, live, DEFAULT_SHUTDOWN_TIMEOUT_MS, None);
                            self.push_frame(f);
                        },
                        None => {},
                    }
                }
            },
            Awaiting::FlushTransmit => {
                self.awaiting = Awaiting::Nothing;
                let sent = result.is_ok();
                let f = self.take_top();
                let ghost extra = frame_ids(f);
                let f2 = match f {
                    Frame::Flush(Some(q)) => {
                        let mut q = q;
                        q.sent = q.sent || sent;
                        Frame::Flush(Some(q))
                    },
                    other => other,
                };
                self.restore_top(f2, Ghost(extra));
            },
            Awaiting::Nothing => {},
        }
    }

    /// Whether the work at `i` is a run of events, and the failed
    /// transmission that answers its request, if any.
    pub closed spec fn send_error_at(&self, i: int) -> Option<Option<TransportError>> {
        if 0 <= i < self.frames@.len() {
            match self.frames@[i] {
                Frame::Events(run) => Some(run.send_error),
                _ => None,
            }
        } else {
            None
        }
    }
}

impl EndpointCore {
    /// The next thing for the application to do: answers first, in order,
    /// then the plain actions, in order, then one step of the innermost
    /// work; `Idle` when nothing is left. After a `Transmit`, the
    /// application reports the outcome with [`Self::transmit_completed`]
    /// before it asks again.
    #[verifier::rlimit(40)]
    pub fn next_action(&mut self) -> (r: Action)
        requires
            old(self).wf(),
            !old(self).awaiting_transmit(),
        ensures
            old(self).stepping() ==> match old(self).next_event() {
                Some((ev, live, _)) => !(ev is NotifyPacketIdReleased) ==> final(self).top_run_live() == Some(live),
                None => true,
            },
            final(self).runs() == old(self).runs(),
            final(self).wf(),
            final(self).accepted() == old(self).accepted(),
            final(self).buffer() == old(self).buffer(),
            final(self).size() == old(self).size(),
            final(self).consumed() == old(self).consumed(),
            final(self).role() == old(self).role(),
            final(self).attached() ==> old(self).attached(),
            old(self).steps_keep(final(self)),
            r is Transmit <==> final(self).awaiting_transmit(),
            !(r is Reply) ==> final(self).answered() == old(self).answered(),
            r matches Action::Reply { id, .. } ==> old(self).accepted().contains(id)
                && !old(self).answered().contains(id)
                && final(self).answered() == old(self).answered().insert(id),
            old(self).reply_ids().len() > 0 ==> {
                &&& r == Action::Reply { id: old(self).reply_ids()[0], response: old(self).reply_bodies()[0] }
                &&& final(self).reply_ids() == old(self).reply_ids().skip(1)
                &&& final(self).reply_bodies() == old(self).reply_bodies().skip(1)
                &&& final(self).connection() == old(self).connection()
                &&& final(self).outbox() == old(self).outbox()
                &&& final(self).depth() == old(self).depth()
                &&& final(self).same_queues(old(self))
                &&& final(self).same_settings(old(self))
            },
            old(self).reply_ids().len() == 0 && old(self).outbox().len() > 0 ==> {
                &&& r == old(self).outbox()[0]
                &&& final(self).connection() == old(self).connection()
                &&& final(self).outbox() == old(self).outbox().skip(1)
                &&& final(self).reply_ids().len() == 0
                &&& final(self).depth() == old(self).depth()
                &&& final(self).same_queues(old(self))
                &&& final(self).same_settings(old(self))
            },
            old(self).reply_ids().len() == 0 && old(self).outbox().len() == 0 && old(self).depth() == 0 ==> {
                &&& r is Idle
                &&& final(self).idle()
                &&& final(self).connection() == old(self).connection()
                &&& final(self).same_queues(old(self))
                &&& final(self).same_settings(old(self))
            },
            old(self).stepping() ==> r is Continue || r is Transmit,
            old(self).stepping() ==> match old(self).finished_run() {
                Some((reply, evs, send_error)) => {
                    &&& final(self).depth() == old(self).depth() - 1
                    &&& final(self).same_queues(old(self))
                    &&& final(self).same_settings(old(self))
                    &&& match reply {
                        Some(id) => final(self).answered_alone(id, Response::Unit(run_outcome(send_error, evs)))
                            && evs == old(self).runs()[id],
                        None => final(self).reply_ids().len() == 0,
                    }
                },
                None => true,
            },
            old(self).stepping() ==> match old(self).next_event() {
                Some((ev, live, timeout_ms)) => {
                    &&& final(self).same_except_timers(old(self))
                    &&& final(self).recv_ids() == old(self).recv_ids()
                    &&& final(self).recv_filters() == old(self).recv_filters()
                    &&& final(self).close_ids() == old(self).close_ids()
                    &&& final(self).queued_ids() == old(self).queued_ids()
                    &&& match ev {
                        Event::RequestSendPacket { packet, release_packet_id_if_send_error } => {
                            &&& r == Action::Transmit(packet)
                            &&& final(self).awaiting_release() == release_packet_id_if_send_error
                            &&& final(self).reply_ids().len() == 0
                            &&& final(self).timers() == old(self).timers()
                        },
                        Event::RequestTimerReset { kind, duration_ms } => {
                            &&& final(self).outbox() == seq![Action::ResetTimer { kind, duration_ms, live }]
                            &&& final(self).timers() == old(self).timers().with(kind, true)
                        },
                        Event::RequestTimerCancel(kind) => {
                            &&& final(self).outbox() == (if old(self).timers().armed(kind) {
                                seq![Action::CancelTimer(kind)]
                            } else {
                                Seq::<Action>::empty()
                            })
                            &&& final(self).timers() == old(self).timers().with(kind, false)
                        },
                        Event::RequestClose => {
                            &&& final(self).outbox() == seq![Action::Shutdown { timeout_ms }]
                            &&& final(self).timers() == old(self).timers()
                        },
                        Event::NotifyPacketIdReleased(_) => {
                            &&& final(self).flush_pending()
                            &&& final(self).timers() == old(self).timers()
                            &&& old(self).serving_waiters() ==> (exists|k: int| 0 <= k <= old(self).waiter_ids().len()
                                && final(self).waiter_ids() == old(self).waiter_ids().skip(k)
                                && final(self).reply_ids() == old(self).waiter_ids().take(k)
                                && forall|i: int| 0 <= i < final(self).reply_bodies().len()
                                    ==> (#[trigger] final(self).reply_bodies()[i] matches Response::PacketId(Ok(_))))
                                && final(self).reply_bodies().len() == old(self).waiter_ids().len() - final(self).waiter_ids().len()
                                && serves(old(self).connection(), final(self).connection(), old(self).waiter_ids().len(),
                                    final(self).reply_bodies())
                            &&& !old(self).serving_waiters() ==> final(self).waiter_ids() == old(self).waiter_ids()
                                && final(self).reply_ids().len() == 0
                        },
                        _ => {
                            &&& final(self).outbox().len() == 0
                            &&& final(self).reply_ids().len() == 0
                            &&& final(self).timers() == old(self).timers()
                        },
                    }
                },
                None => true,
            },
            old(self).stepping() ==> match old(self).delivery() {
                Some((Some((packet, t)), _)) => {
                    &&& final(self).depth() == old(self).depth() - 1
                    &&& final(self).waiter_ids() == old(self).waiter_ids()
                    &&& final(self).close_ids() == old(self).close_ids()
                    &&& final(self).queued_ids() == old(self).queued_ids()
                    &&& final(self).attached() == old(self).attached()
                    &&& final(self).timers() == old(self).timers()
                    &&& old(self).ends_establishment_now(t) ==> !final(self).establish_armed()
                        && final(self).connection_mode() is None
                        && final(self).outbox() == seq![Action::CancelEstablishTimer]
                    &&& !old(self).ends_establishment_now(t) ==> final(self).establish_armed() == old(self).establish_armed()
                        && final(self).connection_mode() == old(self).connection_mode()
                        && final(self).outbox().len() == 0
                    &&& old(self).delivers_to_oldest(t) ==> final(self).recv_ids() == old(self).recv_ids().skip(1)
                        && final(self).recv_filters() == old(self).recv_filters().skip(1)
                        && final(self).answered_alone(old(self).recv_ids()[0], Response::Packet(Ok(packet)))
                    &&& !old(self).delivers_to_oldest(t) ==> final(self).recv_ids() == old(self).recv_ids()
                        && final(self).recv_filters() == old(self).recv_filters()
                        && final(self).reply_ids().len() == 0
                },
                Some((None, err)) => {
                    &&& final(self).depth() == old(self).depth() - 1
                    &&& final(self).same_settings(old(self))
                    &&& final(self).outbox().len() == 0
                    &&& final(self).waiter_ids() == old(self).waiter_ids()
                    &&& final(self).close_ids() == old(self).close_ids()
                    &&& final(self).queued_ids() == old(self).queued_ids()
                    &&& match err {
                        Some(e) => if old(self).recv_ids().len() > 0 {
                            &&& final(self).recv_ids() == old(self).recv_ids().skip(1)
                            &&& final(self).recv_filters() == old(self).recv_filters().skip(1)
                            &&& final(self).answered_alone(old(self).recv_ids()[0], Response::Packet(Err(ConnectionError::Mqtt(e))))
                        } else {
                            final(self).same_queues(old(self)) && final(self).reply_ids().len() == 0
                        },
                        None => final(self).same_queues(old(self)) && final(self).reply_ids().len() == 0,
                    }
                },
                None => true,
            },
            old(self).stepping() && old(self).closing() ==> {
                &&& !final(self).attached()
                &&& final(self).outbox() == seq![Action::DetachTransport]
                &&& final(self).close_ids().len() == 0
                &&& final(self).reply_ids() == old(self).recv_ids() + old(self).close_ids()
                &&& final(self).reply_bodies() == closing_answers(old(self).recv_ids().len(), old(self).close_ids().len())
                &&& final(self).recv_ids().len() == 0
                &&& final(self).waiter_ids() == old(self).waiter_ids()
                &&& final(self).queued_ids() == old(self).queued_ids()
                &&& final(self).depth() == old(self).depth() - 1
            },
            old(self).stepping() && old(self).flush_pending() ==> {
                &&& final(self).same_settings(old(self))
                &&& old(self).flush_goes() ==> old(self).flush_starts(final(self))
                &&& !old(self).flush_goes() ==> final(self).queued_ids() == old(self).queued_ids()
                    && final(self).depth() == old(self).depth() - 1 && final(self).reply_ids().len() == 0
            },
            old(self).stepping() ==> match old(self).flush_done() {
                Some((id, sent)) => {
                    &&& r is Continue
                    &&& final(self).answered_alone(id, Response::Unit(if sent {
                        Ok(())
                    } else {
                        Err(ConnectionError::NotConnected)
                    }))
                    &&& final(self).flush_pending()
                    &&& final(self).queued_ids() == old(self).queued_ids()
                },
                None => true,
            },
            old(self).stepping() ==> match old(self).flush_next() {
                Some(p) => r == Action::Transmit(p) && final(self).flushing() == old(self).flushing()
                    && final(self).reply_ids().len() == 0,
                None => true,
            },
    {
        if self.reply_ids.len() > 0 {
            let ghost h = self.held();
            let ghost r0 = self.reply_ids@;
            proof {
                self.lemma_wf_with_empty();
                assert(r0.to_multiset().count(r0[0]) > 0);
                assert(h.count(r0[0]) > 0);
            }
            let id = self.reply_ids.remove(0);
            let response = self.reply_bodies.remove(0);
            self.answered = Ghost(self.answered@.insert(id));
            proof {
                assert(self.reply_ids@ =~= r0.skip(1));
                assert(self.reply_bodies@ =~= old(self).reply_bodies@.skip(1));
                assert(self.held() =~= h.remove(id));
                assert forall|x: RequestId| #[trigger] self.held().count(x) > 0 implies
                    self.accepted@.contains(x) && !self.answered@.contains(x) by {
                    assert(h.count(x) > 0);
                }
                self.lemma_wf_with_empty();
            }
            return Action::Reply { id, response };
        }
        if self.outbox.len() > 0 {
            let ghost o0 = self.outbox@;
            let a = self.outbox.remove(0);
            proof {
                assert(self.outbox@ =~= o0.skip(1));
                assert(o0[0].is_plain());
                assert forall|i: int| 0 <= i < self.outbox@.len() implies (#[trigger] self.outbox@[i]).is_plain() by {
                    assert(self.outbox@[i] == o0[i + 1]);
                }
                self.lemma_wf_with_empty();
            }
            return a;
        }
        if self.frames.len() == 0 {
            return Action::Idle;
        }
        let f = self.take_top();
        match f {
            Frame::Events(run) => self.step_events(run),
            Frame::Flush(q) => self.step_flush(q),
            Frame::Deliver(d, e) => {
                proof { self.lemma_wf_with_empty(); }
                self.step_deliver(d, e);
                Action::Continue
            },
            Frame::FinishClose => {
                proof { self.lemma_wf_with_empty(); }
                self.finish_close();
                Action::Continue
            },
        }
    }
}


impl EndpointCore {
    /// Answers every waiting receive request, in order: `Transport(Timeout)`
    /// when the connection was not established in time, else `NotConnected`.
    fn fail_receivers(&mut self, timeout: bool)
        requires
            old(self).wf_core_with(Multiset::empty()),
            old(self).reply_ids().len() == 0,
        ensures
            final(self).runs() == old(self).runs(),
            final(self).role() == old(self).role(),
            final(self).buffer() == old(self).buffer(),
            final(self).wf_core_with(Multiset::empty()),
            old(self).wf() ==> final(self).wf(),
            final(self).reply_ids() == old(self).recv_ids(),
            final(self).reply_bodies() == receiver_failures(old(self).recv_ids().len(), timeout),
            final(self).held() == old(self).held(),
            final(self).frames@ == old(self).frames@,
            final(self).recv_ids().len() == 0,
            final(self).recv_filters().len() == 0,
            final(self).waiter_ids() == old(self).waiter_ids(),
            final(self).close_ids() == old(self).close_ids(),
            final(self).queued_ids() == old(self).queued_ids(),
            final(self).same_settings(old(self)),
            final(self).outbox() == old(self).outbox(),
            final(self).depth() == old(self).depth(),
            final(self).awaiting_transmit() == old(self).awaiting_transmit(),
            final(self).accepted() == old(self).accepted(),
            final(self).answered() == old(self).answered(),
    {
        let ghost h = self.held();
        let n = self.recv_ids.len();
        let mut bodies: Vec<Response> = Vec::new();
        while bodies.len() < n
            invariant
                bodies@.len() <= n,
                forall|j: int| 0 <= j < bodies@.len()
                    ==> #[trigger] bodies@[j] == Response::Packet(Err(receiver_error(timeout))),
            decreases n - bodies@.len(),
        {
            let e = if timeout {
                ConnectionError::Transport(TransportError::Timeout)
            } else {
                ConnectionError::NotConnected
            };
            bodies.push(Response::Packet(Err(e)));
        }
        proof { assert(bodies@ =~= receiver_failures(n as nat, timeout)); }
        let mut ids: Vec<RequestId> = Vec::new();
        std::mem::swap(&mut ids, &mut self.recv_ids);
        std::mem::swap(&mut self.reply_ids, &mut ids);
        std::mem::swap(&mut self.reply_bodies, &mut bodies);
        self.recv_filters = Vec::new();
        proof {
            assert(self.held() =~= h);
            self.lemma_wf_with_empty();
        }
    }

    /// The transport is gone: every waiting receive request is answered
    /// `NotConnected`, the transport is dropped and the buffer emptied.
    fn lose_connection(&mut self)
        requires
            old(self).wf(),
            old(self).idle(),
        ensures
            final(self).runs() == old(self).runs(),
            final(self).role() == old(self).role(),
            final(self).buffer() == old(self).buffer(),
            final(self).wf(),
            !final(self).attached(),
            final(self).size() == 0,
            final(self).consumed() == 0,
            final(self).capacity() == old(self).capacity(),
            final(self).reply_ids() == old(self).recv_ids(),
            final(self).reply_bodies() == receiver_failures(old(self).recv_ids().len(), false),
            final(self).recv_ids().len() == 0,
            final(self).waiter_ids() == old(self).waiter_ids(),
            final(self).close_ids() == old(self).close_ids(),
            final(self).queued_ids() == old(self).queued_ids(),
            final(self).outbox() == seq![Action::DetachTransport],
            final(self).depth() == 0,
            !final(self).awaiting_transmit(),
            final(self).shutdown_timeout_ms() == old(self).shutdown_timeout_ms(),
            final(self).establish_armed() == old(self).establish_armed(),
            final(self).timers() == old(self).timers(),
            final(self).accepted() == old(self).accepted(),
            final(self).answered() == old(self).answered(),
    {
        self.fail_receivers(false);
        self.attached = false;
        self.read_size = 0;
        self.read_consumed = 0;
        self.outbox.push(Action::DetachTransport);
        proof {
            assert(self.outbox@ =~= seq![Action::DetachTransport]);
            self.lemma_wf_with_empty();
        }
    }

    /// `next` is `self` after its unread bytes went to the state machine: the
    /// machine took as many as it said, its events for exactly those bytes
    /// are to be processed, and then the first packet among them, with the
    /// first protocol error, is to be handed on.
    pub open spec fn reads_into(&self, next: &Self) -> bool {
        Self::reads_bytes(self.connection(), self.unread_bytes(), self.consumed(), next)
    }

    /// The base of [`Self::reads_into`]: `next` is what the bytes `bytes`,
    /// of which `base` were processed before, leave once handed to the state
    /// machine `c`.
    pub open spec fn reads_bytes(c: Connection, bytes: Seq<u8>, base: nat, next: &Self) -> bool {
        let (evs, took) = received(c, bytes);
        &&& next.consumed() == base + took
        &&& next.depth() == 2
        &&& next.top_run_reply() == Some(None::<RequestId>)
        &&& next.top_run_pending() == Some(evs)
        &&& next.top_run_live() == Some(true)
        &&& next.pending_delivery() == Some(delivery_of(evs))
    }

    /// Hands the unprocessed bytes of the buffer to the state machine; its
    /// events are processed next, then the packet received, if any, is
    /// handed on.
    fn process_read_buffer(&mut self)
        requires
            old(self).wf(),
            old(self).idle(),
        ensures
            final(self).runs() == old(self).runs(),
            final(self).wf(),
            final(self).same_queues(old(self)),
            final(self).attached() == old(self).attached(),
            final(self).capacity() == old(self).capacity(),
            final(self).size() == old(self).size(),
            old(self).consumed() <= final(self).consumed() <= final(self).size(),
            final(self).shutdown_timeout_ms() == old(self).shutdown_timeout_ms(),
            final(self).queuing_receive_maximum() == old(self).queuing_receive_maximum(),
            final(self).establish_armed() == old(self).establish_armed(),
            final(self).connection_mode() == old(self).connection_mode(),
            final(self).timers() == old(self).timers(),
            final(self).reply_ids().len() == 0,
            final(self).outbox().len() == 0,
            !final(self).awaiting_transmit(),
            old(self).consumed() < old(self).size() ==> old(self).reads_into(final(self)),
            old(self).consumed() >= old(self).size() ==> *final(self) == *old(self),
            final(self).buffer() == old(self).buffer(),
            final(self).role() == old(self).role(),
            final(self).accepted() == old(self).accepted(),
            final(self).answered() == old(self).answered(),
    {
        if self.read_consumed >= self.read_size {
            return;
        }
        let (events, took) = connection_recv(&mut self.connection, &self.read_data, self.read_consumed, self.read_size);
        self.read_consumed = self.read_consumed + took;
        let received = first_received(&events);
        let err = first_error_in(&events);
        proof { self.lemma_wf_with_empty(); }
        self.push_frame(Frame::Deliver(received, err));
        let f = Self::run_of(events, true, true, self.shutdown_timeout_ms, None);
        self.push_frame(f);
    }

    /// Processes bytes already in the buffer, when the receive side was told
    /// [`RecvPoll::Buffered`].
    pub fn process_buffered(&mut self)
        requires
            old(self).wf(),
            old(self).idle(),
        ensures
            final(self).runs() == old(self).runs(),
            final(self).wf(),
            final(self).same_queues(old(self)),
            final(self).attached() == old(self).attached(),
            final(self).capacity() == old(self).capacity(),
            final(self).size() == old(self).size(),
            old(self).consumed() <= final(self).consumed() <= final(self).size(),
            final(self).timers() == old(self).timers(),
            final(self).reply_ids().len() == 0,
            final(self).outbox().len() == 0,
            !final(self).awaiting_transmit(),
            old(self).consumed() < old(self).size() ==> old(self).reads_into(final(self)),
            old(self).consumed() >= old(self).size() ==> *final(self) == *old(self),
            final(self).buffer() == old(self).buffer(),
            final(self).role() == old(self).role(),
            final(self).accepted() == old(self).accepted(),
            final(self).answered() == old(self).answered(),
    {
        self.process_read_buffer();
    }

    /// The outcome of a read from the transport into `buf`, a buffer of the
    /// endpoint's capacity. Bytes read become the endpoint's buffer (and
    /// `buf` gets the old one) and are processed; a read of nothing
    /// processes what is still buffered, or, with nothing buffered, means
    /// that the peer closed; a failed read, like a close, answers every
    /// waiting receive request `NotConnected` and drops the transport.
    pub fn read_completed(&mut self, buf: &mut Vec<u8>, outcome: ReadOutcome)
        requires
            old(self).wf(),
            old(self).idle(),
            old(buf)@.len() == old(self).capacity(),
            outcome matches ReadOutcome::Data(n) ==> n <= old(self).capacity(),
        ensures
            final(self).runs() == old(self).runs(),
            final(self).attached() ==> old(self).attached(),
            final(self).role() == old(self).role(),
            final(self).wf(),
            final(buf)@.len() == final(self).capacity(),
            final(self).capacity() == old(self).capacity(),
            final(self).accepted() == old(self).accepted(),
            final(self).answered() == old(self).answered(),
            !final(self).awaiting_transmit(),
            final(self).waiter_ids() == old(self).waiter_ids(),
            final(self).close_ids() == old(self).close_ids(),
            final(self).queued_ids() == old(self).queued_ids(),
            final(self).timers() == old(self).timers(),
            match outcome {
                ReadOutcome::Data(n) => if n > 0 {
                    &&& final(self).size() == n
                    &&& final(self).buffer() == old(buf)@
                    &&& final(self).consumed() <= n
                    &&& Self::reads_bytes(old(self).connection(), old(buf)@.subrange(0, n as int), 0, final(self))
                    &&& final(self).attached() == old(self).attached()
                    &&& final(self).same_queues(old(self))
                    &&& final(self).reply_ids().len() == 0
                } else if old(self).consumed() < old(self).size() {
                    &&& final(self).size() == old(self).size()
                    &&& final(self).buffer() == old(self).buffer()
                    &&& old(self).reads_into(final(self))
                    &&& final(self).attached() == old(self).attached()
                    &&& final(self).same_queues(old(self))
                    &&& final(self).reply_ids().len() == 0
                } else {
                    &&& !final(self).attached()
                    &&& final(self).size() == 0
                    &&& final(self).reply_ids() == old(self).recv_ids()
                    &&& final(self).reply_bodies() == receiver_failures(old(self).recv_ids().len(), false)
                    &&& final(self).recv_ids().len() == 0
                    &&& final(self).outbox() == seq![Action::DetachTransport]
                },
                ReadOutcome::Failed => {
                    &&& !final(self).attached()
                    &&& final(self).size() == 0
                    &&& final(self).reply_ids() == old(self).recv_ids()
                    &&& final(self).reply_bodies() == receiver_failures(old(self).recv_ids().len(), false)
                    &&& final(self).recv_ids().len() == 0
                    &&& final(self).outbox() == seq![Action::DetachTransport]
                },
            },
    {
        match outcome {
            ReadOutcome::Data(n) => {
                if n > 0 {
                    std::mem::swap(buf, &mut self.read_data);
                    self.read_size = n;
                    self.read_consumed = 0;
                    proof { self.lemma_wf_with_empty(); }
                    self.process_read_buffer();
                } else if self.read_consumed < self.read_size {
                    self.process_read_buffer();
                } else {
                    self.lose_connection();
                }
            },
            ReadOutcome::Failed => self.lose_connection(),
        }
    }

    /// A protocol timer fired: it no longer runs; once the protocol version
    /// is known the state machine is told, and with a transport its events
    /// are processed next.
    pub fn timer_fired(&mut self, kind: TimerKind)
        requires
            old(self).wf(),
            old(self).idle(),
        ensures
            final(self).runs() == old(self).runs(),
            old(self).steps_keep(final(self)),
            final(self).attached() ==> old(self).attached(),
            final(self).buffer() == old(self).buffer(),
            final(self).size() == old(self).size(),
            final(self).consumed() == old(self).consumed(),
            final(self).role() == old(self).role(),
            final(self).wf(),
            final(self).timers() == old(self).timers().with(kind, false),
            final(self).same_queues(old(self)),
            final(self).same_except_timers(old(self)),
            final(self).reply_ids().len() == 0,
            final(self).outbox().len() == 0,
            !final(self).awaiting_transmit(),
            old(self).attached() && version_determined(old(self).connection()) ==> final(self).depth() == 1
                && final(self).top_run_reply() == Some(None::<RequestId>)
                && final(self).top_run_pending() == Some(timer_events(old(self).connection(), kind))
                && final(self).top_run_live() == Some(true),
            !(old(self).attached() && version_determined(old(self).connection())) ==> final(self).depth() == 0,
            final(self).accepted() == old(self).accepted(),
            final(self).answered() == old(self).answered(),
    {
        self.timers.set(kind, false);
        let version = connection_protocol_version(&self.connection);
        if is_version_known(&version) {
            let events = connection_notify_timer_fired(&mut self.connection, kind);
            if self.attached {
                let f = Self::run_of(events, true, true, self.shutdown_timeout_ms, None);
                proof { self.lemma_wf_with_empty(); }
                self.push_frame(f);
            }
        }
    }

    /// The establishment timer fired: when it still runs, it stops, every
    /// waiting receive request is answered `Transport(Timeout)`, the transport is
    /// shut down within the shutdown timeout and dropped, and the buffer
    /// emptied; otherwise nothing changes.
    pub fn establish_timeout_fired(&mut self)
        requires
            old(self).wf(),
            old(self).idle(),
        ensures
            final(self).runs() == old(self).runs(),
            final(self).attached() ==> old(self).attached(),
            final(self).buffer() == old(self).buffer(),
            final(self).role() == old(self).role(),
            final(self).wf(),
            final(self).accepted() == old(self).accepted(),
            final(self).answered() == old(self).answered(),
            final(self).depth() == 0,
            !final(self).awaiting_transmit(),
            final(self).waiter_ids() == old(self).waiter_ids(),
            final(self).close_ids() == old(self).close_ids(),
            final(self).queued_ids() == old(self).queued_ids(),
            final(self).timers() == old(self).timers(),
            final(self).capacity() == old(self).capacity(),
            !old(self).establish_armed() ==> final(self).idle() && final(self).same_settings(old(self))
                && final(self).same_queues(old(self)),
            old(self).establish_armed() ==> {
                &&& !final(self).establish_armed()
                &&& final(self).connection_mode() is None
                &&& !final(self).attached()
                &&& final(self).size() == 0
                &&& final(self).consumed() == 0
                &&& final(self).reply_ids() == old(self).recv_ids()
                &&& final(self).reply_bodies() == receiver_failures(old(self).recv_ids().len(), true)
                &&& final(self).recv_ids().len() == 0
                &&& final(self).outbox() == (if old(self).attached() {
                    seq![Action::Shutdown { timeout_ms: old(self).shutdown_timeout_ms() }, Action::DetachTransport]
                } else {
                    Seq::<Action>::empty()
                })
            },
    {
        if !self.establish_timer {
            return;
        }
        self.establish_timer = false;
        self.connection_mode = None;
        self.fail_receivers(true);
        if self.attached {
            self.outbox.push(Action::Shutdown { timeout_ms: self.shutdown_timeout_ms });
            self.outbox.push(Action::DetachTransport);
            proof {
                assert(self.outbox@ =~= seq![
                    Action::Shutdown { timeout_ms: old(self).shutdown_timeout_ms() },
                    Action::DetachTransport,
                ]);
            }
        }
        self.attached = false;
        self.read_size = 0;
        self.read_consumed = 0;
        proof { self.lemma_wf_with_empty(); }
    }
}


impl EndpointCore {
    /// Withdraws a receive request whose caller no longer waits for it: it
    /// leaves the queue unanswered, so that the next packet goes to the
    /// next receive request. Any other request is left as it is.
    pub fn withdraw_recv(&mut self, id: RequestId)
        requires
            old(self).wf(),
            old(self).idle(),
        ensures
            final(self).runs() == old(self).runs(),
            old(self).steps_keep(final(self)),
            final(self).attached() ==> old(self).attached(),
            final(self).buffer() == old(self).buffer(),
            final(self).size() == old(self).size(),
            final(self).consumed() == old(self).consumed(),
            final(self).role() == old(self).role(),
            final(self).wf(),
            final(self).idle(),
            final(self).accepted() == old(self).accepted(),
            final(self).answered() == old(self).answered(),
            final(self).same_settings(old(self)),
            final(self).waiter_ids() == old(self).waiter_ids(),
            final(self).close_ids() == old(self).close_ids(),
            final(self).queued_ids() == old(self).queued_ids(),
            !old(self).recv_ids().contains(id) ==> final(self).recv_ids() == old(self).recv_ids()
                && final(self).recv_filters() == old(self).recv_filters(),
            old(self).recv_ids().contains(id) ==> exists|i: int| 0 <= i < old(self).recv_ids().len()
                && old(self).recv_ids()[i] == id
                && final(self).recv_ids() == old(self).recv_ids().remove(i)
                && final(self).recv_filters() == old(self).recv_filters().remove(i),
    {
        match self.find_recv(id) {
            Some(i) => {
                let ghost h = self.held();
                let ghost ids0 = self.recv_ids@;
                proof {
                    self.lemma_wf_with_empty();
                    assert(ids0.to_multiset().count(id) > 0);
                    assert(h.count(id) > 0);
                }
                let _ = self.recv_ids.remove(i);
                let _ = self.recv_filters.remove(i);
                proof {
                    assert(self.held() =~= h.remove(id));
                    assert forall|x: RequestId| #[trigger] self.held().count(x) > 0 implies
                        self.accepted@.contains(x) && !self.answered@.contains(x) by {
                        assert(h.count(x) > 0);
                    }
                    self.lemma_wf_with_empty();
                }
            },
            None => {},
        }
    }

    /// Where `id` stands among the waiting receive requests.
    fn find_recv(&self, id: RequestId) -> (r: Option<usize>)
        ensures
            match r {
                Some(i) => i < self.recv_ids().len() && self.recv_ids()[i as int] == id,
                None => !self.recv_ids().contains(id),
            },
    {
        let mut i: usize = 0;
        while i < self.recv_ids.len()
            invariant
                0 <= i <= self.recv_ids@.len(),
                forall|j: int| 0 <= j < i ==> self.recv_ids@[j] != id,
            decreases self.recv_ids.len() - i,
        {
            if self.recv_ids[i] == id {
                return Some(i);
            }
            i += 1;
        }
        None
    }
}

/// A request is answered at most once: no answer waiting to be handed out
/// is for a request that was already answered, and no request has two
/// answers waiting; every answer is for an accepted request.
pub proof fn law_answers_once(c: &EndpointCore)
    requires
        c.wf(),
    ensures
        forall|i: int| 0 <= i < c.reply_ids().len() ==> c.accepted().contains(#[trigger] c.reply_ids()[i])
            && !c.answered().contains(c.reply_ids()[i]),
        c.reply_ids().no_duplicates(),
{
    c.lemma_wf_with_empty();
    let h = c.held();
    let rs = c.reply_ids();
    assert forall|i: int| 0 <= i < rs.len() implies c.accepted().contains(#[trigger] rs[i])
        && !c.answered().contains(rs[i]) by {
        assert(rs.to_multiset().count(rs[i]) > 0);
        assert(h.count(rs[i]) > 0);
    }
    assert forall|i: int, j: int| 0 <= i < rs.len() && 0 <= j < rs.len() && i != j implies rs[i] != rs[j] by {
        if rs[i] == rs[j] {
            lemma_two_occurrences(rs, i, j);
            assert(h.count(rs[i]) >= rs.to_multiset().count(rs[i]));
        }
    }
}

/// A close request is held only while its close is in progress: an idle
/// endpoint holds none, so a close that finds no transport is answered at
/// once.
pub proof fn law_idle_holds_no_close(c: &EndpointCore)
    requires
        c.wf(),
        c.idle(),
    ensures
        c.close_ids().len() == 0,
{
}

/// When exactly one packet id is free and requests wait for one, serving
/// them hands that id to the oldest request and to no other: the others
/// keep waiting.
pub proof fn law_one_free_id_serves_oldest_waiter(
    c0: Connection,
    c1: Connection,
    waiting: nat,
    bodies: Seq<Response>,
    free: u16,
)
    requires
        serves(c0, c1, waiting, bodies),
        waiting >= 1,
        free != 0,
        !packet_id_used(c0, free),
        forall|w: u16| w != 0 && w != free ==> packet_id_used(c0, w),
    ensures
        bodies == seq![Response::PacketId(Ok(free))],
{
    if bodies.len() == 0 {
        assert(packet_id_used(c1, free));
        assert(!served_ids(bodies).contains(free));
    }
    assert(bodies[0] matches Response::PacketId(Ok(v)) && v == free);
    if bodies.len() >= 2 {
        assert(bodies[1] matches Response::PacketId(Ok(v)) && v == free);
        assert(served_ids(bodies)[0] == served_ids(bodies)[1]);
    }
    assert(bodies =~= seq![Response::PacketId(Ok(free))]);
}

/// Packet ids are handed out lowest first: with the ids up to `n` in use and
/// no other, an acquire gives `n + 1`, and once every id is in use it fails.
pub proof fn law_acquire_takes_lowest(c: Connection, r: Result<u16, MqttError>, n: u16)
    requires
        acquires_lowest(c, r),
        forall|w: u16| packet_id_used(c, w) <==> w <= n,
    ensures
        n < 65535 ==> r == Ok::<u16, MqttError>((n + 1) as u16),
        n == 65535 ==> r is Err,
{
    if n < 65535 {
        let next = (n + 1) as u16;
        assert(!packet_id_used(c, next));
        match r {
            Ok(v) => {
                assert(v > n);
                if v > next {
                    assert(packet_id_used(c, next));
                }
            },
            Err(_) => {
                assert(packet_id_used(c, next));
            },
        }
    }
}

/// The answer of a send handed to the state machine, however many steps
/// later it is given, comes from the events that the machine gave for the
/// packet when the send was taken: the first failed transmission of the
/// run, else the first protocol error among those events, else `Ok`.
/// (`states[0]` is the state in which the send was taken, the last state
/// the one whose finished run answers it with `answer`.)
pub proof fn law_send_answer_is_first_error(
    states: Seq<EndpointCore>,
    id: RequestId,
    c: Connection,
    packet: Packet,
    send_error: Option<TransportError>,
    answer: Result<(), ConnectionError>,
)
    requires
        states.len() > 0,
        forall|i: int| 0 <= i < states.len() - 1 ==> #[trigger] states[i].steps_keep(&states[i + 1]),
        states[0].runs().contains_key(id),
        states[0].runs()[id] == sent_events(c, packet),
        answer == run_outcome(send_error, states.last().runs()[id]),
    ensures
        answer == match send_error {
            Some(e) => Err(ConnectionError::Transport(e)),
            None => outcome_of(first_error_of(sent_events(c, packet))),
        },
{
    law_steps_keep_buffer_and_transport(states);
}

/// Where the events hold no protocol error, none is the first; where the
/// first one is at `i`, it is that one.
proof fn lemma_first_error_at(evs: Seq<Event>, i: int)
    ensures
        (forall|j: int| 0 <= j < evs.len() ==> !(#[trigger] evs[j] is NotifyError)) ==> first_error_of(evs) is None,
        0 <= i < evs.len() && (forall|j: int| 0 <= j < i ==> !(#[trigger] evs[j] is NotifyError))
            ==> (evs[i] matches Event::NotifyError(e) ==> first_error_of(evs) == Some(e)),
    decreases evs.len(),
{
    if evs.len() > 0 {
        let front = evs.drop_last();
        lemma_first_error_at(front, i);
        if forall|j: int| 0 <= j < evs.len() ==> !(#[trigger] evs[j] is NotifyError) {
            assert forall|j: int| 0 <= j < front.len() implies !(#[trigger] front[j] is NotifyError) by {
                assert(front[j] == evs[j]);
            }
            assert(!(evs[evs.len() - 1] is NotifyError));
        }
        if 0 <= i < evs.len() && (forall|j: int| 0 <= j < i ==> !(#[trigger] evs[j] is NotifyError)) {
            if i < front.len() {
                assert forall|j: int| 0 <= j < i implies !(#[trigger] front[j] is NotifyError) by {
                    assert(front[j] == evs[j]);
                }
                assert(front[i] == evs[i]);
            } else {
                assert forall|j: int| 0 <= j < front.len() implies !(#[trigger] front[j] is NotifyError) by {
                    assert(front[j] == evs[j]);
                }
                lemma_first_error_at(front, 0);
            }
        }
    }
}

/// The answer of a request whose work is a run of events: the first failed
/// transmission of its packets, if there was one; else, when one of its
/// events is a protocol error, the first such error; else `Ok`.
pub proof fn law_run_answer(send_error: Option<TransportError>, evs: Seq<Event>, i: int)
    ensures
        send_error matches Some(t) ==> run_outcome(send_error, evs) == Err::<(), ConnectionError>(ConnectionError::Transport(t)),
        send_error is None && (forall|j: int| 0 <= j < evs.len() ==> !(#[trigger] evs[j] is NotifyError))
            ==> run_outcome(send_error, evs) == Ok::<(), ConnectionError>(()),
        send_error is None && 0 <= i < evs.len() && (forall|j: int| 0 <= j < i ==> !(#[trigger] evs[j] is NotifyError))
            ==> (evs[i] matches Event::NotifyError(e)
                ==> run_outcome(send_error, evs) == Err::<(), ConnectionError>(ConnectionError::Mqtt(e))),
{
    lemma_first_error_at(evs, i);
}

/// A run whose timers are live hands its next event out as live: a timer
/// reset that it asks for becomes a `ResetTimer` whose timer reports when
/// it fires.
pub proof fn law_live_run_hands_out_live_events(c: &EndpointCore)
    requires
        c.top_run_live() == Some(true),
        c.top_run_pending() matches Some(evs) && evs.len() > 0,
    ensures
        c.next_event() matches Some((ev, live, _)) && live && ev == c.top_run_pending().unwrap()[0],
{
}

/// The events of bytes read are processed with live timers: the first of
/// them is handed out live, so a timer reset it asks for (a keep-alive
/// timer after CONNACK, say) reports when it fires.
pub proof fn law_read_events_start_live_timers(c: Connection, bytes: Seq<u8>, base: nat, next: &EndpointCore)
    requires
        EndpointCore::reads_bytes(c, bytes, base, next),
        received(c, bytes).0.len() > 0,
    ensures
        next.next_event() matches Some((ev, live, _)) && live && ev == received(c, bytes).0[0],
{
    law_live_run_hands_out_live_events(next);
}

/// Setting a timer's state changes that timer's state and no other's.
pub proof fn law_timer_set_touches_one_timer(t: Timers, kind: TimerKind, on: bool, other: TimerKind)
    ensures
        t.with(kind, on).armed(kind) == on,
        other != kind ==> t.with(kind, on).armed(other) == t.armed(other),
{
}

/// An acquire answers the id that the state machine handed out, or its
/// error as a protocol error; a regulation answers the regulated PUBLISH, or
/// the state machine's error as a protocol error.
pub proof fn law_answers_carry_machine_results(v: u16, e: MqttError, p: Publish)
    ensures
        acquire_answer(Ok(v)) == Ok::<u16, ConnectionError>(v),
        acquire_answer(Err(e)) == Err::<u16, ConnectionError>(ConnectionError::Mqtt(e)),
        regulate_answer(Ok(p)) == Ok::<Publish, ConnectionError>(p),
        regulate_answer(Err(e)) == Err::<Publish, ConnectionError>(ConnectionError::Mqtt(e)),
{
}

/// The end of a close answers the waiting receive requests `NotConnected`
/// and then the close requests `Ok`; when the connection is not established
/// in time, the receive requests get `Transport(Timeout)` instead.
pub proof fn law_closing_answers(receivers: nat, closers: nat, i: int)
    ensures
        0 <= i < receivers ==> closing_answers(receivers, closers)[i]
            == Response::Packet(Err(ConnectionError::NotConnected)),
        receivers <= i < receivers + closers ==> closing_answers(receivers, closers)[i]
            == Response::Unit(Ok(())),
        closing_answers(receivers, closers).len() == receivers + closers,
        0 <= i < receivers ==> receiver_failures(receivers, true)[i]
            == Response::Packet(Err(ConnectionError::Transport(TransportError::Timeout))),
{
}

/// Without a transport a send is refused, unless it is a PUBLISH and
/// offline publishing is on; with a transport it is never refused for want
/// of one.
pub proof fn law_send_needs_transport(c: &EndpointCore, packet: Packet)
    ensures
        c.attached() ==> !c.refuses_send(packet),
        !c.attached() && !c.offline_publish() ==> c.refuses_send(packet),
        !c.attached() && spec_packet_type(packet) != PacketType::Publish ==> c.refuses_send(packet),
        c.offline_publish() && spec_packet_type(packet) == PacketType::Publish ==> !c.refuses_send(packet),
{
}

/// Telling the state machine of a close asks for no packet to be sent and
/// for no further close, so processing its events shuts nothing down again.
pub proof fn law_close_events_send_and_close_nothing(evs: Seq<Event>)
    requires
        closing_events(evs),
    ensures
        forall|i: int| 0 <= i < evs.len() ==> !(#[trigger] evs[i] is RequestClose) && !(evs[i] is RequestSendPacket),
{
}

/// Over any run of steps of the work, the buffer's bytes and how far they
/// are processed stay as they were (bytes left over by one receive are
/// there for the next), no transport is attached that was not, every
/// answer given stays given, no request comes to wait for a packet (one
/// withdrawn or answered does not take a later packet), and the events
/// recorded for each request stay those from which its answer comes.
pub proof fn law_steps_keep_buffer_and_transport(states: Seq<EndpointCore>)
    requires
        states.len() > 0,
        forall|i: int| 0 <= i < states.len() - 1 ==> #[trigger] states[i].steps_keep(&states[i + 1]),
    ensures
        states.last().buffer() == states[0].buffer(),
        states.last().unread_bytes() == states[0].unread_bytes(),
        states.last().role() == states[0].role(),
        !states[0].attached() ==> !states.last().attached(),
        states[0].answered().subset_of(states.last().answered()),
        forall|x: RequestId| #[trigger] states.last().recv_ids().contains(x) ==> states[0].recv_ids().contains(x),
        states.last().runs() == states[0].runs(),
    decreases states.len(),
{
    if states.len() > 1 {
        let front = states.drop_last();
        assert forall|i: int| 0 <= i < front.len() - 1 implies #[trigger] front[i].steps_keep(&front[i + 1]) by {
            assert(states[i].steps_keep(&states[i + 1]));
        }
        law_steps_keep_buffer_and_transport(front);
        let j = states.len() - 2;
        assert(states[j].steps_keep(&states[j + 1]));
        assert(front.last() == states[j]);
    }
}

/// An element at two places of a sequence occurs at least twice in it.
proof fn lemma_two_occurrences(s: Seq<RequestId>, i: int, j: int)
    requires
        0 <= i < s.len(),
        0 <= j < s.len(),
        i != j,
        s[i] == s[j],
    ensures
        s.to_multiset().count(s[i]) >= 2,
{
    let lo = if i < j { i } else { j };
    let hi = if i < j { j } else { i };
    let x = s[i];
    let t = s.remove(hi);
    assert(t[lo] == x);
    assert(t.to_multiset().count(x) >= 1);
    assert(s.to_multiset().count(x) == t.to_multiset().count(x) + 1) by {
        assert(t.to_multiset() == s.to_multiset().remove(s[hi]));
    }
}

} // verus!
