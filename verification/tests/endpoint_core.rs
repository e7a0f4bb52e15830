use mqtt_endpoint_tokio::mqtt_ep::connection_error::ConnectionError;
use mqtt_endpoint_tokio::mqtt_ep::connection_option::ConnectionOption;
use mqtt_endpoint_tokio::mqtt_ep::endpoint::engine::EndpointCore;
use mqtt_endpoint_tokio::mqtt_ep::endpoint::{
    establishment_ends, Action, Mode, ReadOutcome, RecvPoll, Request, Response,
};
use mqtt_endpoint_tokio::mqtt_ep::packet_filter::{packet_type_of, PacketFilter, PacketType};
use mqtt_endpoint_tokio::mqtt_ep::protocol::{Packet, RoleKind, TimerKind};
use mqtt_endpoint_tokio::mqtt_ep::transport::TransportError;
use mqtt_protocol_core::mqtt::packet::v5_0;
use mqtt_protocol_core::mqtt::packet::{GenericPacket, GenericPacketTrait, Property, Qos, ReceiveMaximum};
use mqtt_protocol_core::mqtt::result_code::ConnectReasonCode;
use mqtt_protocol_core::mqtt::Version;

fn connect_packet() -> Packet {
    let c = v5_0::Connect::builder().client_id("cid").unwrap().build().unwrap();
    Packet { inner: GenericPacket::V5_0Connect(c) }
}

fn connack_bytes() -> Vec<u8> {
    let c = v5_0::Connack::builder()
        .session_present(false)
        .reason_code(ConnectReasonCode::Success)
        .build()
        .unwrap();
    GenericPacket::<u16>::V5_0Connack(c).to_continuous_buffer()
}

fn publish_bytes() -> Vec<u8> {
    let p = v5_0::GenericPublish::<u16>::builder()
        .topic_name("t")
        .unwrap()
        .qos(Qos::AtMostOnce)
        .payload(b"hi".to_vec())
        .build()
        .unwrap();
    GenericPacket::<u16>::V5_0Publish(p).to_continuous_buffer()
}

fn describe(a: &Action) -> String {
    match a {
        Action::Idle => "Idle".to_string(),
        Action::Continue => "Continue".to_string(),
        Action::Reply { id, response } => format!("Reply {} {}", id, describe_response(response)),
        Action::Transmit(p) => format!("Transmit {:?}", packet_type_of(p)),
        Action::Shutdown { timeout_ms } => format!("Shutdown {}", timeout_ms),
        Action::AttachTransport => "AttachTransport".to_string(),
        Action::DetachTransport => "DetachTransport".to_string(),
        Action::ResetTimer { kind, duration_ms, live } => {
            format!("ResetTimer {:?} {} {}", kind, duration_ms, live)
        }
        Action::CancelTimer(k) => format!("CancelTimer {:?}", k),
        Action::StartEstablishTimer { duration_ms } => format!("StartEstablishTimer {}", duration_ms),
        Action::CancelEstablishTimer => "CancelEstablishTimer".to_string(),
    }
}

fn describe_response(r: &Response) -> String {
    match r {
        Response::Unit(Ok(())) => "Ok".to_string(),
        Response::Unit(Err(e)) => format!("Err {}", e.to_string()),
        Response::Packet(Ok(p)) => format!("Packet {:?}", packet_type_of(p)),
        Response::Packet(Err(e)) => format!("PacketErr {}", e.to_string()),
        Response::PacketId(Ok(id)) => format!("PacketId {}", id),
        Response::PacketId(Err(e)) => format!("PacketIdErr {}", e.to_string()),
        Response::StoredPackets(v) => format!("Stored {}", v.len()),
        Response::Qos2Handled(v) => format!("Qos2 {}", v.len()),
        Response::Vacancy(v) => format!("Vacancy {:?}", v),
        Response::ProtocolVersion(v) => format!("Version {:?}", v),
        Response::Regulated(Ok(_)) => "Regulated".to_string(),
        Response::Regulated(Err(e)) => format!("RegulatedErr {}", e.to_string()),
    }
}

/// Runs the core until it is idle; every transmission succeeds when `sent`
/// and fails with a timeout otherwise.
fn drain(core: &mut EndpointCore, sent: bool) -> Vec<String> {
    let mut out = Vec::new();
    loop {
        let a = core.next_action();
        match a {
            Action::Idle => break,
            Action::Continue => {}
            Action::Transmit(_) => {
                out.push(describe(&a));
                core.transmit_completed(if sent { Ok(()) } else { Err(TransportError::Timeout) });
            }
            _ => out.push(describe(&a)),
        }
    }
    out
}

fn request(core: &mut EndpointCore, id: u64, r: Request) -> Vec<String> {
    core.handle_request(id, r);
    drain(core, true)
}

fn read(core: &mut EndpointCore, bytes: &[u8]) -> Vec<String> {
    let mut buf = vec![0u8; core.recv_capacity()];
    buf[..bytes.len()].copy_from_slice(bytes);
    core.read_completed(&mut buf, ReadOutcome::Data(bytes.len()));
    assert_eq!(buf.len(), core.recv_capacity());
    drain(core, true)
}

fn attached_client(options: ConnectionOption) -> EndpointCore {
    let mut core = EndpointCore::new(Version::V5_0, RoleKind::Client);
    let out = request(&mut core, 1, Request::Attach { mode: Mode::Client, options });
    assert!(out.contains(&"Reply 1 Ok".to_string()), "{:?}", out);
    assert!(out.contains(&"AttachTransport".to_string()), "{:?}", out);
    core
}

#[test]
fn requests_without_transport_are_answered_at_once() {
    let mut core = EndpointCore::new(Version::V5_0, RoleKind::Client);
    assert_eq!(request(&mut core, 1, Request::Send(connect_packet())), vec!["Reply 1 Err Not connected"]);
    assert_eq!(
        request(&mut core, 2, Request::Recv(PacketFilter::Any)),
        vec!["Reply 2 PacketErr Not connected"]
    );
    assert_eq!(request(&mut core, 3, Request::Close), vec!["Reply 3 Ok"]);
    assert_eq!(
        request(&mut core, 4, Request::ReleasePacketId(1)),
        vec!["Reply 4 Err MQTT protocol error: PacketIdentifierInvalid"]
    );
    assert_eq!(request(&mut core, 5, Request::GetProtocolVersion), vec!["Reply 5 Version V5_0"]);
    assert_eq!(request(&mut core, 6, Request::GetStoredPackets), vec!["Reply 6 Stored 0"]);
    assert_eq!(request(&mut core, 7, Request::GetQos2PublishHandled), vec!["Reply 7 Qos2 0"]);
    assert_eq!(request(&mut core, 8, Request::SetOfflinePublish(true)), vec!["Reply 8 Ok"]);
    assert_eq!(core.recv_poll(), RecvPoll::Wait);
}

#[test]
fn packet_ids_are_acquired_and_registered() {
    let mut core = EndpointCore::new(Version::V5_0, RoleKind::Client);
    assert_eq!(request(&mut core, 1, Request::AcquirePacketId), vec!["Reply 1 PacketId 1"]);
    assert_eq!(request(&mut core, 2, Request::AcquirePacketIdWhenAvailable), vec!["Reply 2 PacketId 2"]);
    assert_eq!(request(&mut core, 3, Request::RegisterPacketId(3)), vec!["Reply 3 Ok"]);
    assert_eq!(
        request(&mut core, 30, Request::RegisterPacketId(3)),
        vec!["Reply 30 Err MQTT protocol error: PacketIdentifierConflict"]
    );
    assert_eq!(request(&mut core, 4, Request::AcquirePacketId), vec!["Reply 4 PacketId 4"]);
    assert_eq!(request(&mut core, 5, Request::ReleasePacketId(1)), vec!["Reply 5 Ok"]);
    assert_eq!(request(&mut core, 6, Request::AcquirePacketId), vec!["Reply 6 PacketId 1"]);
}

#[test]
fn attach_with_defaults_adopts_transport() {
    let core = attached_client(ConnectionOption::default());
    assert_eq!(core.recv_capacity(), 4096);
    assert_eq!(core.recv_poll(), RecvPoll::Wait);
}

#[test]
fn attach_sets_buffer_size_and_establish_timer() {
    let mut core = EndpointCore::new(Version::V5_0, RoleKind::Client);
    let options = ConnectionOption::builder()
        .recv_buffer_size(128)
        .connection_establish_timeout_ms(250)
        .build()
        .unwrap();
    let out = request(&mut core, 1, Request::Attach { mode: Mode::Client, options });
    assert_eq!(out, vec!["Reply 1 Ok", "StartEstablishTimer 250", "AttachTransport"]);
    assert_eq!(core.recv_capacity(), 128);
}

#[test]
fn send_is_transmitted_and_answered() {
    let mut core = attached_client(ConnectionOption::default());
    let out = request(&mut core, 2, Request::Send(connect_packet()));
    assert_eq!(out[0], "Transmit Connect");
    assert_eq!(out.last().unwrap(), "Reply 2 Ok");
}

#[test]
fn received_packet_answers_oldest_receive_request() {
    let mut core = attached_client(ConnectionOption::default());
    request(&mut core, 2, Request::Send(connect_packet()));
    assert_eq!(request(&mut core, 3, Request::Recv(PacketFilter::Any)), Vec::<String>::new());
    assert_eq!(request(&mut core, 4, Request::Recv(PacketFilter::Any)), Vec::<String>::new());
    assert_eq!(core.recv_poll(), RecvPoll::Read);
    let out = read(&mut core, &connack_bytes());
    assert!(out.contains(&"Reply 3 Packet Connack".to_string()), "{:?}", out);
    assert!(!out.iter().any(|s| s.starts_with("Reply 4")), "{:?}", out);
    assert_eq!(core.recv_poll(), RecvPoll::Read);
}

#[test]
fn filtered_out_packet_answers_no_request() {
    let mut core = attached_client(ConnectionOption::default());
    request(&mut core, 2, Request::Send(connect_packet()));
    let filter = PacketFilter::include_types(vec![PacketType::Publish]);
    request(&mut core, 3, Request::Recv(filter));
    let out = read(&mut core, &connack_bytes());
    assert!(!out.iter().any(|s| s.starts_with("Reply")), "{:?}", out);
    assert_eq!(core.recv_poll(), RecvPoll::Read);
    let out = read(&mut core, &publish_bytes());
    assert!(out.contains(&"Reply 3 Packet Publish".to_string()), "{:?}", out);
}

#[test]
fn two_packets_in_one_read_are_processed_one_by_one() {
    let mut core = attached_client(ConnectionOption::default());
    request(&mut core, 2, Request::Send(connect_packet()));
    request(&mut core, 3, Request::Recv(PacketFilter::Any));
    let mut bytes = connack_bytes();
    bytes.extend(publish_bytes());
    let out = read(&mut core, &bytes);
    assert!(out.contains(&"Reply 3 Packet Connack".to_string()), "{:?}", out);
    assert_eq!(core.recv_poll(), RecvPoll::Wait);
    request(&mut core, 4, Request::Recv(PacketFilter::Any));
    assert_eq!(core.recv_poll(), RecvPoll::Buffered);
    core.process_buffered();
    let out = drain(&mut core, true);
    assert!(out.contains(&"Reply 4 Packet Publish".to_string()), "{:?}", out);
    request(&mut core, 5, Request::Recv(PacketFilter::Any));
    assert_eq!(core.recv_poll(), RecvPoll::Read);
}

#[test]
fn failed_read_answers_receivers_and_drops_transport() {
    let mut core = attached_client(ConnectionOption::default());
    request(&mut core, 2, Request::Recv(PacketFilter::Any));
    request(&mut core, 3, Request::Recv(PacketFilter::Any));
    let mut buf = vec![0u8; core.recv_capacity()];
    core.read_completed(&mut buf, ReadOutcome::Failed);
    let out = drain(&mut core, true);
    assert_eq!(
        out,
        vec!["Reply 2 PacketErr Not connected", "Reply 3 PacketErr Not connected", "DetachTransport"]
    );
    assert_eq!(core.recv_poll(), RecvPoll::Wait);
    assert_eq!(request(&mut core, 4, Request::Send(connect_packet())), vec!["Reply 4 Err Not connected"]);
}

#[test]
fn peer_close_is_a_lost_connection() {
    let mut core = attached_client(ConnectionOption::default());
    request(&mut core, 2, Request::Recv(PacketFilter::Any));
    let mut buf = vec![0u8; core.recv_capacity()];
    core.read_completed(&mut buf, ReadOutcome::Data(0));
    let out = drain(&mut core, true);
    assert_eq!(out, vec!["Reply 2 PacketErr Not connected", "DetachTransport"]);
}

#[test]
fn close_shuts_down_detaches_and_answers() {
    let mut core = attached_client(ConnectionOption::default());
    let out = request(&mut core, 2, Request::Close);
    assert_eq!(out.first().unwrap(), "Shutdown 5000");
    let n = out.len();
    assert_eq!(out[n - 2..].to_vec(), vec!["Reply 2 Ok", "DetachTransport"]);
    assert_eq!(request(&mut core, 3, Request::Close), vec!["Reply 3 Ok"]);
}

#[test]
fn establish_timeout_fails_receivers_and_closes() {
    let mut core = EndpointCore::new(Version::V5_0, RoleKind::Client);
    let options = ConnectionOption::builder()
        .connection_establish_timeout_ms(100)
        .shutdown_timeout_ms(700)
        .build()
        .unwrap();
    request(&mut core, 1, Request::Attach { mode: Mode::Client, options });
    request(&mut core, 2, Request::Recv(PacketFilter::Any));
    core.establish_timeout_fired();
    let out = drain(&mut core, true);
    assert_eq!(
        out,
        vec!["Reply 2 PacketErr Transport error: Operation timed out", "Shutdown 700", "DetachTransport"]
    );
    core.establish_timeout_fired();
    assert_eq!(drain(&mut core, true), Vec::<String>::new());
}

#[test]
fn connack_stops_establish_timer() {
    let mut core = EndpointCore::new(Version::V5_0, RoleKind::Client);
    let options = ConnectionOption::builder().connection_establish_timeout_ms(100).build().unwrap();
    request(&mut core, 1, Request::Attach { mode: Mode::Client, options });
    request(&mut core, 2, Request::Send(connect_packet()));
    request(&mut core, 3, Request::Recv(PacketFilter::Any));
    let out = read(&mut core, &connack_bytes());
    assert!(out.contains(&"CancelEstablishTimer".to_string()), "{:?}", out);
    assert!(out.contains(&"Reply 3 Packet Connack".to_string()), "{:?}", out);
    core.establish_timeout_fired();
    assert_eq!(drain(&mut core, true), Vec::<String>::new());
}

#[test]
fn failed_transmission_answers_send_with_transport_error() {
    let mut core = attached_client(ConnectionOption::default());
    core.handle_request(2, Request::Send(connect_packet()));
    let out = drain(&mut core, false);
    assert_eq!(out[0], "Transmit Connect");
    assert_eq!(out.last().unwrap(), "Reply 2 Err Transport error: Operation timed out");
}

#[test]
fn establishment_end_depends_on_mode() {
    assert!(establishment_ends(Mode::Client, PacketType::Connack));
    assert!(!establishment_ends(Mode::Client, PacketType::Connect));
    assert!(establishment_ends(Mode::Server, PacketType::Connect));
    assert!(!establishment_ends(Mode::Server, PacketType::Publish));
}

#[test]
fn vacancy_and_errors_are_reported() {
    let mut core = EndpointCore::new(Version::V5_0, RoleKind::Client);
    let out = request(&mut core, 1, Request::GetReceiveMaximumVacancyForSend);
    assert_eq!(out.len(), 1);
    assert!(out[0].starts_with("Reply 1 Vacancy"), "{:?}", out);
    let e = ConnectionError::NotConnected;
    assert_eq!(e.to_string(), "Not connected");
}

fn connack_with_receive_maximum(n: u16) -> Vec<u8> {
    let c = v5_0::Connack::builder()
        .session_present(false)
        .reason_code(ConnectReasonCode::Success)
        .props(vec![Property::ReceiveMaximum(ReceiveMaximum::new(n).unwrap())])
        .build()
        .unwrap();
    GenericPacket::<u16>::V5_0Connack(c).to_continuous_buffer()
}

fn publish_qos1(packet_id: u16) -> Packet {
    let p = v5_0::GenericPublish::<u16>::builder()
        .topic_name("t")
        .unwrap()
        .qos(Qos::AtLeastOnce)
        .packet_id(packet_id)
        .payload(b"x".to_vec())
        .build()
        .unwrap();
    Packet { inner: GenericPacket::V5_0Publish(p) }
}

fn puback_bytes(packet_id: u16) -> Vec<u8> {
    let p = v5_0::GenericPuback::<u16>::builder().packet_id(packet_id).build().unwrap();
    GenericPacket::<u16>::V5_0Puback(p).to_continuous_buffer()
}

#[test]
fn queued_publish_goes_out_when_receive_maximum_frees() {
    let options = ConnectionOption::builder().queuing_receive_maximum(true).build().unwrap();
    let mut core = attached_client(options);
    request(&mut core, 2, Request::Send(connect_packet()));
    request(&mut core, 3, Request::Recv(PacketFilter::Any));
    let out = read(&mut core, &connack_with_receive_maximum(1));
    assert!(out.contains(&"Reply 3 Packet Connack".to_string()), "{:?}", out);
    assert_eq!(request(&mut core, 4, Request::AcquirePacketId), vec!["Reply 4 PacketId 1"]);
    let out = request(&mut core, 5, Request::Send(publish_qos1(1)));
    assert!(out.contains(&"Transmit Publish".to_string()), "{:?}", out);
    assert_eq!(out.last().unwrap(), "Reply 5 Ok");
    assert_eq!(request(&mut core, 6, Request::GetReceiveMaximumVacancyForSend), vec!["Reply 6 Vacancy Some(0)"]);
    assert_eq!(request(&mut core, 7, Request::AcquirePacketId), vec!["Reply 7 PacketId 2"]);
    // The peer's receive maximum is used up: the PUBLISH waits.
    assert_eq!(request(&mut core, 8, Request::Send(publish_qos1(2))), Vec::<String>::new());
    request(&mut core, 9, Request::Recv(PacketFilter::Any));
    let out = read(&mut core, &puback_bytes(1));
    let t = out.iter().position(|s| s == "Transmit Publish").expect("queued publish sent");
    let r = out.iter().position(|s| s == "Reply 8 Ok").expect("queued send answered");
    assert!(t < r, "{:?}", out);
    assert!(out.contains(&"Reply 9 Packet Puback".to_string()), "{:?}", out);
}

#[test]
fn queued_publish_not_sent_is_answered_not_connected() {
    let options = ConnectionOption::builder().queuing_receive_maximum(true).build().unwrap();
    let mut core = attached_client(options);
    request(&mut core, 2, Request::Send(connect_packet()));
    request(&mut core, 3, Request::Recv(PacketFilter::Any));
    read(&mut core, &connack_with_receive_maximum(1));
    request(&mut core, 4, Request::AcquirePacketId);
    request(&mut core, 5, Request::Send(publish_qos1(1)));
    request(&mut core, 6, Request::AcquirePacketId);
    assert_eq!(request(&mut core, 7, Request::Send(publish_qos1(2))), Vec::<String>::new());
    request(&mut core, 8, Request::Recv(PacketFilter::Any));
    let mut buf = vec![0u8; core.recv_capacity()];
    let bytes = puback_bytes(1);
    buf[..bytes.len()].copy_from_slice(&bytes);
    core.read_completed(&mut buf, ReadOutcome::Data(bytes.len()));
    let out = drain(&mut core, false);
    assert!(out.contains(&"Reply 7 Err Not connected".to_string()), "{:?}", out);
}

#[test]
fn released_packet_id_goes_to_oldest_waiter() {
    let mut core = attached_client(ConnectionOption::default());
    for id in 1u16..=65535 {
        core.handle_request(1000 + id as u64, Request::RegisterPacketId(id));
        drain(&mut core, true);
    }
    assert_eq!(request(&mut core, 2, Request::AcquirePacketIdWhenAvailable), Vec::<String>::new());
    assert_eq!(request(&mut core, 3, Request::AcquirePacketIdWhenAvailable), Vec::<String>::new());
    // Only one id is freed: the oldest waiter gets it and the other keeps waiting.
    assert_eq!(request(&mut core, 4, Request::ReleasePacketId(5)), vec!["Reply 2 PacketId 5", "Reply 4 Ok"]);
    assert_eq!(request(&mut core, 5, Request::ReleasePacketId(6)), vec!["Reply 3 PacketId 6", "Reply 5 Ok"]);
}

#[test]
fn close_uses_configured_timeout_and_fails_receivers() {
    let options = ConnectionOption::builder().shutdown_timeout_ms(1000).build().unwrap();
    let mut core = attached_client(options);
    request(&mut core, 2, Request::Recv(PacketFilter::Any));
    let out = request(&mut core, 3, Request::Close);
    assert_eq!(out.first().unwrap(), "Shutdown 1000");
    let n = out.len();
    assert_eq!(
        out[n - 3..].to_vec(),
        vec!["Reply 2 PacketErr Not connected", "Reply 3 Ok", "DetachTransport"]
    );
    assert_eq!(core.recv_poll(), RecvPoll::Wait);
}

#[test]
fn attach_while_attached_is_refused() {
    let mut core = attached_client(ConnectionOption::default());
    let options = ConnectionOption::builder().recv_buffer_size(64).build().unwrap();
    let out = request(&mut core, 2, Request::Attach { mode: Mode::Client, options });
    assert_eq!(out, vec!["Reply 2 Err Already connected"]);
    assert_eq!(core.recv_capacity(), 4096);
}

#[test]
fn offline_publish_is_accepted_without_transport() {
    let mut core = EndpointCore::new(Version::V5_0, RoleKind::Client);
    assert_eq!(request(&mut core, 1, Request::SetOfflinePublish(true)), vec!["Reply 1 Ok"]);
    assert_eq!(request(&mut core, 2, Request::AcquirePacketId), vec!["Reply 2 PacketId 1"]);
    assert_eq!(request(&mut core, 3, Request::Send(publish_qos1(1))), vec!["Reply 3 Ok"]);
    assert_eq!(request(&mut core, 4, Request::GetStoredPackets), vec!["Reply 4 Stored 1"]);
    assert_eq!(request(&mut core, 5, Request::Send(connect_packet())), vec!["Reply 5 Err Not connected"]);
}

#[test]
fn publish_with_stored_packet_id_is_refused() {
    let mut core = EndpointCore::new(Version::V5_0, RoleKind::Client);
    request(&mut core, 1, Request::SetOfflinePublish(true));
    request(&mut core, 2, Request::AcquirePacketId);
    assert_eq!(request(&mut core, 3, Request::Send(publish_qos1(1))), vec!["Reply 3 Ok"]);
    assert_eq!(
        request(&mut core, 4, Request::Send(publish_qos1(1))),
        vec!["Reply 4 Err MQTT protocol error: PacketIdentifierConflict"]
    );
}

#[test]
fn test_acquire_unique_vs_when_available_api() {
    let mut core = EndpointCore::new(Version::V3_1_1, RoleKind::Client);
    for i in 0u64..65535 {
        core.handle_request(1000 + i, Request::AcquirePacketId);
        let out = drain(&mut core, true);
        assert!(out[0].starts_with(&format!("Reply {} PacketId", 1000 + i)), "{:?}", out);
    }
    assert_eq!(request(&mut core, 1, Request::AcquirePacketIdWhenAvailable), Vec::<String>::new());
    assert_eq!(request(&mut core, 2, Request::ReleasePacketId(123)), vec!["Reply 1 PacketId 123", "Reply 2 Ok"]);
    assert_eq!(request(&mut core, 3, Request::ReleasePacketId(123)), vec!["Reply 3 Ok"]);
}

#[test]
fn protocol_error_answers_oldest_receiver() {
    let mut core = attached_client(ConnectionOption::default());
    request(&mut core, 2, Request::Send(connect_packet()));
    request(&mut core, 3, Request::Recv(PacketFilter::Any));
    let out = read(&mut core, &[0x00, 0x00]);
    assert!(out.iter().any(|s| s.starts_with("Reply 3 PacketErr MQTT protocol error")), "{:?}", out);
}

#[test]
fn withdrawn_receiver_gets_no_packet() {
    let mut core = attached_client(ConnectionOption::default());
    request(&mut core, 2, Request::Send(connect_packet()));
    request(&mut core, 3, Request::Recv(PacketFilter::Any));
    request(&mut core, 4, Request::Recv(PacketFilter::Any));
    core.withdraw_recv(3);
    let out = read(&mut core, &connack_bytes());
    assert!(out.contains(&"Reply 4 Packet Connack".to_string()), "{:?}", out);
    assert!(!out.iter().any(|s| s.starts_with("Reply 3")), "{:?}", out);
}

#[test]
fn timer_before_version_is_known_does_nothing() {
    let mut core = EndpointCore::new(Version::Undetermined, RoleKind::Server);
    let options = ConnectionOption::default();
    request(&mut core, 1, Request::Attach { mode: Mode::Server, options });
    core.timer_fired(TimerKind::PingreqRecv);
    assert_eq!(drain(&mut core, true), Vec::<String>::new());
}

#[test]
fn acquired_ids_run_lowest_first_until_none_is_free() {
    let mut core = EndpointCore::new(Version::V5_0, RoleKind::Client);
    for i in 1u64..=65535 {
        core.handle_request(i, Request::AcquirePacketId);
        assert_eq!(drain(&mut core, true), vec![format!("Reply {} PacketId {}", i, i)]);
    }
    assert_eq!(
        request(&mut core, 70000, Request::AcquirePacketId),
        vec!["Reply 70000 PacketIdErr MQTT protocol error: PacketIdentifierFullyUsed"]
    );
    // A waiting acquire is held, and the lowest released id is the next handed out.
    assert_eq!(request(&mut core, 70001, Request::AcquirePacketIdWhenAvailable), Vec::<String>::new());
    assert_eq!(
        request(&mut core, 70002, Request::ReleasePacketId(7)),
        vec!["Reply 70001 PacketId 7", "Reply 70002 Ok"]
    );
}

#[test]
fn register_and_release_follow_whether_the_id_is_in_use() {
    let mut core = EndpointCore::new(Version::V5_0, RoleKind::Server);
    assert_eq!(
        request(&mut core, 1, Request::ReleasePacketId(9)),
        vec!["Reply 1 Err MQTT protocol error: PacketIdentifierInvalid"]
    );
    assert_eq!(request(&mut core, 2, Request::RegisterPacketId(9)), vec!["Reply 2 Ok"]);
    assert_eq!(
        request(&mut core, 3, Request::RegisterPacketId(0)),
        vec!["Reply 3 Err MQTT protocol error: PacketIdentifierConflict"]
    );
    assert_eq!(request(&mut core, 4, Request::ReleasePacketId(9)), vec!["Reply 4 Ok"]);
    assert_eq!(request(&mut core, 5, Request::RegisterPacketId(9)), vec!["Reply 5 Ok"]);
}

#[test]
fn new_core_keeps_its_version() {
    let mut core = EndpointCore::new(Version::V3_1_1, RoleKind::Any);
    assert_eq!(request(&mut core, 1, Request::GetProtocolVersion), vec!["Reply 1 Version V3_1_1"]);
    assert_eq!(
        request(&mut core, 2, Request::GetReceiveMaximumVacancyForSend),
        vec!["Reply 2 Vacancy None"]
    );
}

#[test]
fn repeated_close_shuts_down_once() {
    let mut core = attached_client(ConnectionOption::default());
    let out = request(&mut core, 2, Request::Close);
    assert_eq!(out.iter().filter(|s| s.starts_with("Shutdown")).count(), 1, "{:?}", out);
    assert_eq!(out.last().unwrap(), "DetachTransport");
    assert_eq!(request(&mut core, 3, Request::Close), vec!["Reply 3 Ok"]);
    assert_eq!(request(&mut core, 4, Request::Close), vec!["Reply 4 Ok"]);
}

#[test]
fn qos0_publish_is_sent_while_receive_maximum_is_used_up() {
    let options = ConnectionOption::builder().queuing_receive_maximum(true).build().unwrap();
    let mut core = attached_client(options);
    request(&mut core, 2, Request::Send(connect_packet()));
    request(&mut core, 3, Request::Recv(PacketFilter::Any));
    read(&mut core, &connack_with_receive_maximum(1));
    request(&mut core, 4, Request::AcquirePacketId);
    request(&mut core, 5, Request::Send(publish_qos1(1)));
    assert_eq!(request(&mut core, 6, Request::GetReceiveMaximumVacancyForSend), vec!["Reply 6 Vacancy Some(0)"]);
    let p = v5_0::GenericPublish::<u16>::builder()
        .topic_name("t")
        .unwrap()
        .qos(Qos::AtMostOnce)
        .payload(b"y".to_vec())
        .build()
        .unwrap();
    let out = request(&mut core, 7, Request::Send(Packet { inner: GenericPacket::V5_0Publish(p) }));
    assert_eq!(out, vec!["Transmit Publish", "Reply 7 Ok"]);
}
