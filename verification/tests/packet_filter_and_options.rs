use mqtt_endpoint_tokio::mqtt_ep::connection_option::ConnectionOption;
use mqtt_endpoint_tokio::mqtt_ep::packet_filter::{PacketFilter, PacketType};
use mqtt_endpoint_tokio::mqtt_ep::protocol::Packet;
use mqtt_protocol_core::mqtt::packet::v5_0;
use mqtt_protocol_core::mqtt::packet::GenericPacket;

fn pingreq() -> Packet {
    Packet { inner: GenericPacket::V5_0Pingreq(v5_0::Pingreq::new()) }
}

fn connect() -> Packet {
    let c = v5_0::Connect::builder().client_id("cid").unwrap().build().unwrap();
    Packet { inner: GenericPacket::V5_0Connect(c) }
}

#[test]
fn filter_include_accepts_only_listed_types() {
    let f = PacketFilter::include_types(vec![PacketType::Connect, PacketType::Publish]);
    assert!(f.matches_packet_type(PacketType::Connect));
    assert!(f.matches_packet_type(PacketType::Publish));
    assert!(!f.matches_packet_type(PacketType::Pingreq));
    assert!(f.matches(&connect()));
    assert!(!f.matches(&pingreq()));
}

#[test]
fn filter_exclude_accepts_all_but_listed_types() {
    let f = PacketFilter::exclude(vec![PacketType::Pingreq]);
    assert!(!f.matches_packet_type(PacketType::Pingreq));
    assert!(f.matches_packet_type(PacketType::Pingresp));
    assert!(!f.matches(&pingreq()));
    assert!(f.matches(&connect()));
}

#[test]
fn filter_any_accepts_everything() {
    let f = PacketFilter::Any;
    for code in 1u8..=15 {
        assert!(f.matches_packet_type(PacketType::from_code(code)));
    }
    assert!(f.matches(&pingreq()));
}

#[test]
fn filter_include_and_exclude_of_same_list_are_complements() {
    let types = vec![PacketType::Suback, PacketType::Unsuback];
    let inc = PacketFilter::include_types(types.clone());
    let exc = PacketFilter::exclude(types);
    for code in 1u8..=15 {
        let t = PacketType::from_code(code);
        assert_eq!(inc.matches_packet_type(t), !exc.matches_packet_type(t));
    }
}

#[test]
fn empty_include_accepts_nothing_and_empty_exclude_everything() {
    let inc = PacketFilter::include_types(vec![]);
    let exc = PacketFilter::exclude(vec![]);
    assert!(!inc.matches(&connect()));
    assert!(exc.matches(&connect()));
}

#[test]
fn packet_type_numbers_follow_mqtt() {
    assert_eq!(PacketType::from_code(1), PacketType::Connect);
    assert_eq!(PacketType::from_code(2), PacketType::Connack);
    assert_eq!(PacketType::from_code(3), PacketType::Publish);
    assert_eq!(PacketType::from_code(12), PacketType::Pingreq);
    assert_eq!(PacketType::from_code(13), PacketType::Pingresp);
    assert_eq!(PacketType::from_code(14), PacketType::Disconnect);
    assert_eq!(PacketType::from_code(15), PacketType::Auth);
}

#[test]
fn options_default_values() {
    let o = ConnectionOption::default();
    assert_eq!(*o.pingreq_send_interval_ms(), None);
    assert!(*o.auto_pub_response());
    assert!(*o.auto_ping_response());
    assert!(!*o.auto_map_topic_alias_send());
    assert!(!*o.auto_replace_topic_alias_send());
    assert_eq!(*o.pingresp_recv_timeout_ms(), 0);
    assert_eq!(*o.connection_establish_timeout_ms(), 0);
    assert_eq!(*o.shutdown_timeout_ms(), 5000);
    assert_eq!(*o.recv_buffer_size(), None);
    assert!(!*o.queuing_receive_maximum());
}

#[test]
fn options_empty_builder_gives_defaults() {
    let o = ConnectionOption::builder().build().unwrap();
    let d = ConnectionOption::default();
    assert_eq!(*o.shutdown_timeout_ms(), *d.shutdown_timeout_ms());
    assert_eq!(*o.auto_pub_response(), *d.auto_pub_response());
    assert_eq!(*o.recv_buffer_size(), *d.recv_buffer_size());
    assert_eq!(*o.pingreq_send_interval_ms(), *d.pingreq_send_interval_ms());
}

#[test]
fn options_builder_sets_each_field() {
    let o = ConnectionOption::builder()
        .pingreq_send_interval_ms(30000)
        .auto_pub_response(false)
        .auto_ping_response(false)
        .auto_map_topic_alias_send(true)
        .auto_replace_topic_alias_send(true)
        .pingresp_recv_timeout_ms(7000)
        .connection_establish_timeout_ms(1500)
        .shutdown_timeout_ms(100)
        .recv_buffer_size(8192)
        .queuing_receive_maximum(true)
        .build()
        .unwrap();
    assert_eq!(*o.pingreq_send_interval_ms(), Some(30000));
    assert!(!*o.auto_pub_response());
    assert!(!*o.auto_ping_response());
    assert!(*o.auto_map_topic_alias_send());
    assert!(*o.auto_replace_topic_alias_send());
    assert_eq!(*o.pingresp_recv_timeout_ms(), 7000);
    assert_eq!(*o.connection_establish_timeout_ms(), 1500);
    assert_eq!(*o.shutdown_timeout_ms(), 100);
    assert_eq!(*o.recv_buffer_size(), Some(8192));
    assert!(*o.queuing_receive_maximum());
}

#[test]
fn options_last_setter_wins() {
    let o = ConnectionOption::builder()
        .shutdown_timeout_ms(1)
        .shutdown_timeout_ms(2)
        .build()
        .unwrap();
    assert_eq!(*o.shutdown_timeout_ms(), 2);
    assert!(*o.auto_ping_response());
}
