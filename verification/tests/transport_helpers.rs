use mqtt_endpoint_tokio::mqtt_ep::transport::address::{
    authority, port_of_address, prefer_ipv4, split_host_port, url,
};
use mqtt_endpoint_tokio::mqtt_ep::transport::message_buffer::{
    FrameRejection, IncomingFrame, MessageBuffer,
};
use mqtt_endpoint_tokio::mqtt_ep::transport::tls::TlsTransport;
use mqtt_endpoint_tokio::mqtt_ep::transport::write_progress::{WriteProgress, WriteStep};
use mqtt_endpoint_tokio::mqtt_ep::transport::TransportError;

#[test]
fn split_host_port_parses_host_and_port() {
    let (h, p) = split_host_port("localhost:8080").unwrap();
    assert_eq!(h, "localhost");
    assert_eq!(p, 8080);
    let (h, p) = split_host_port(":1").unwrap();
    assert_eq!(h, "");
    assert_eq!(p, 1);
}

#[test]
fn split_host_port_rejects_bad_addresses() {
    match split_host_port("localhost") {
        Err(TransportError::Connect(m)) => assert_eq!(m, "Invalid address format"),
        _ => panic!("expected an invalid format"),
    }
    match split_host_port("a:b:c") {
        Err(TransportError::Connect(m)) => assert_eq!(m, "Invalid address format"),
        _ => panic!("expected an invalid format"),
    }
    match split_host_port("host:70000") {
        Err(TransportError::Connect(m)) => assert_eq!(m, "Invalid port number"),
        _ => panic!("expected an invalid port"),
    }
    match split_host_port("host:") {
        Err(TransportError::Connect(m)) => assert_eq!(m, "Invalid port number"),
        _ => panic!("expected an invalid port"),
    }
}

#[test]
fn port_of_address_takes_second_field() {
    assert_eq!(port_of_address("example.com:8883").unwrap(), 8883);
    assert_eq!(port_of_address("a:443:extra").unwrap(), 443);
    assert_eq!(port_of_address("h:+65535").unwrap(), 65535);
    match port_of_address("nocolon") {
        Err(TransportError::Connect(m)) => assert_eq!(m, "Invalid address format"),
        _ => panic!("expected an error"),
    }
    assert!(port_of_address("h:65536").is_err());
}

#[test]
fn authority_and_url_format() {
    assert_eq!(authority("broker", 1883), "broker:1883");
    assert_eq!(authority("h", 0), "h:0");
    assert_eq!(url("ws", "localhost", 8080, "/mqtt"), "ws://localhost:8080/mqtt");
    assert_eq!(url("wss", "example.com", 65535, ""), "wss://example.com:65535");
}

#[test]
fn prefer_ipv4_picks_first_ipv4_else_first() {
    assert_eq!(prefer_ipv4(&vec![false, true, true]), Some(1));
    assert_eq!(prefer_ipv4(&vec![false, false]), Some(0));
    assert_eq!(prefer_ipv4(&vec![true]), Some(0));
    assert_eq!(prefer_ipv4(&vec![]), None);
}

#[test]
fn write_progress_tracks_partial_writes() {
    let mut p = WriteProgress::new(vec![3, 0, 4]);
    assert!(!p.is_complete());
    assert_eq!(p.remaining(), 7);
    assert_eq!(p.pending_segments(), vec![(0, 0), (2, 0)]);
    assert_eq!(p.record_write(2), WriteStep::Progressed);
    assert_eq!(p.pending_segments(), vec![(0, 2), (2, 0)]);
    assert_eq!(p.record_write(3), WriteStep::Progressed);
    assert_eq!(p.pending_segments(), vec![(2, 2)]);
    assert_eq!(p.remaining(), 2);
    assert_eq!(p.record_write(0), WriteStep::WroteNothing);
    assert_eq!(p.record_write(2), WriteStep::Progressed);
    assert!(p.is_complete());
    assert_eq!(p.pending_segments(), vec![]);
}

#[test]
fn write_progress_of_nothing_is_complete() {
    let p = WriteProgress::new(vec![]);
    assert!(p.is_complete());
    assert_eq!(p.remaining(), 0);
}

#[test]
fn message_buffer_reads_message_in_parts() {
    let mut b = MessageBuffer::new();
    assert!(b.needs_message());
    assert!(b.accept_frame(IncomingFrame::Binary(vec![1, 2, 3, 4, 5])).is_ok());
    assert!(!b.needs_message());
    let first = b.read(2);
    let second = b.read(10);
    assert_eq!(first, vec![1, 2]);
    assert_eq!(second, vec![3, 4, 5]);
    assert!(b.needs_message());
    assert_eq!(b.read(4), Vec::<u8>::new());
}

#[test]
fn message_buffer_rejects_other_frames() {
    let mut b = MessageBuffer::new();
    assert!(matches!(b.accept_frame(IncomingFrame::Close), Err(FrameRejection::Closed)));
    assert!(matches!(b.accept_frame(IncomingFrame::Other), Err(FrameRejection::Closed)));
    assert!(matches!(b.accept_frame(IncomingFrame::End), Err(FrameRejection::Closed)));
    match b.accept_frame(IncomingFrame::Failed("reset".to_string())) {
        Err(FrameRejection::Failed(t)) => assert_eq!(t, "reset"),
        _ => panic!("expected a failure"),
    }
    assert!(b.needs_message());
}

#[test]
fn tls_transport_holds_its_stream() {
    let mut t = TlsTransport::from_stream(vec![7u8]);
    assert_eq!(t.stream(), &vec![7u8]);
    t.stream_mut().push(8);
    assert_eq!(t.stream(), &vec![7u8, 8]);
}

#[test]
fn pending_segments_hold_the_unwritten_bytes() {
    let bufs: Vec<Vec<u8>> = vec![vec![1, 2, 3], vec![], vec![4, 5, 6, 7]];
    let mut p = WriteProgress::new(bufs.iter().map(|b| b.len()).collect());
    p.record_write(5);
    let rest: Vec<u8> = p
        .pending_segments()
        .into_iter()
        .flat_map(|(i, start)| bufs[i][start..].to_vec())
        .collect();
    let all: Vec<u8> = bufs.concat();
    assert_eq!(rest, all[5..].to_vec());
    assert_eq!(rest, vec![6, 7]);
}

#[test]
fn writes_take_the_next_bytes_in_order() {
    let bufs: Vec<Vec<u8>> = vec![vec![1, 2], vec![3, 4, 5], vec![6]];
    let mut p = WriteProgress::new(bufs.iter().map(|b| b.len()).collect());
    let unwritten = |p: &WriteProgress| -> Vec<u8> {
        p.pending_segments().into_iter().flat_map(|(i, start)| bufs[i][start..].to_vec()).collect()
    };
    let mut taken: Vec<u8> = Vec::new();
    for n in [1usize, 3, 10] {
        let before = unwritten(&p);
        assert_eq!(p.record_write(n), WriteStep::Progressed);
        let after = unwritten(&p);
        let k = before.len() - after.len();
        assert_eq!(after, before[k..].to_vec());
        taken.extend_from_slice(&before[..k]);
    }
    assert!(p.is_complete());
    assert_eq!(taken, vec![1, 2, 3, 4, 5, 6]);
}
