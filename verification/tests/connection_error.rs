use mqtt_endpoint_tokio::mqtt_ep::connection_error::ConnectionError;
use mqtt_endpoint_tokio::mqtt_ep::transport::TransportError;
use mqtt_protocol_core::mqtt::result_code::MqttError;

#[test]
fn test_connection_error_mqtt_variant() {
    let mqtt_err = MqttError::MalformedPacket;
    let conn_err = ConnectionError::Mqtt(mqtt_err);

    let debug_str = format!("{:?}", conn_err);
    assert!(debug_str.contains("Mqtt"));
    assert!(debug_str.contains("MalformedPacket"));

    let display_str = conn_err.to_string();
    assert!(display_str.contains("MQTT protocol error"));
    assert!(display_str.contains("MalformedPacket"));
}

#[test]
fn test_connection_error_transport_variant() {
    let transport_err = TransportError::Timeout;
    let conn_err = ConnectionError::Transport(transport_err);

    let debug_str = format!("{:?}", conn_err);
    assert!(debug_str.contains("Transport"));
    assert!(debug_str.contains("Timeout"));

    let display_str = conn_err.to_string();
    assert!(display_str.contains("Transport error"));
    assert!(display_str.contains("Operation timed out"));
}

#[test]
fn test_connection_error_channel_closed_variant() {
    let conn_err = ConnectionError::ChannelClosed;
    let debug_str = format!("{:?}", conn_err);
    assert_eq!(debug_str, "ChannelClosed");
    let display_str = conn_err.to_string();
    assert_eq!(display_str, "Internal channel closed");
}

#[test]
fn test_connection_error_not_connected_variant() {
    let conn_err = ConnectionError::NotConnected;
    let debug_str = format!("{:?}", conn_err);
    assert_eq!(debug_str, "NotConnected");
    let display_str = conn_err.to_string();
    assert_eq!(display_str, "Not connected");
}

#[test]
fn test_connection_error_already_connected_variant() {
    let conn_err = ConnectionError::AlreadyConnected;
    let debug_str = format!("{:?}", conn_err);
    assert_eq!(debug_str, "AlreadyConnected");
    let display_str = conn_err.to_string();
    assert_eq!(display_str, "Already connected");
}

#[test]
fn test_connection_error_already_disconnected_variant() {
    let conn_err = ConnectionError::AlreadyDisconnected;
    let debug_str = format!("{:?}", conn_err);
    assert_eq!(debug_str, "AlreadyDisconnected");
    let display_str = conn_err.to_string();
    assert_eq!(display_str, "Already disconnected");
}

#[test]
fn test_connection_error_from_mqtt_error() {
    let mqtt_err = MqttError::MalformedPacket;
    let conn_err: ConnectionError = mqtt_err.into();
    match conn_err {
        ConnectionError::Mqtt(MqttError::MalformedPacket) => {}
        _ => panic!("Expected ConnectionError::Mqtt(MqttError::MalformedPacket)"),
    }

    let mqtt_err2 = MqttError::ProtocolError;
    let conn_err2 = ConnectionError::from(mqtt_err2);
    match conn_err2 {
        ConnectionError::Mqtt(MqttError::ProtocolError) => {}
        _ => panic!("Expected ConnectionError::Mqtt(MqttError::ProtocolError)"),
    }
}

#[test]
fn test_connection_error_from_transport_error() {
    let transport_err = TransportError::Timeout;
    let conn_err: ConnectionError = transport_err.into();
    match conn_err {
        ConnectionError::Transport(TransportError::Timeout) => {}
        _ => panic!("Expected ConnectionError::Transport(TransportError::Timeout)"),
    }

    let transport_err2 = TransportError::NotConnected;
    let conn_err2 = ConnectionError::from(transport_err2);
    match conn_err2 {
        ConnectionError::Transport(TransportError::NotConnected) => {}
        _ => panic!("Expected ConnectionError::Transport(TransportError::NotConnected)"),
    }
}

#[test]
fn test_all_transport_error_variants() {
    let io_err = std::io::Error::new(std::io::ErrorKind::ConnectionRefused, "Connection refused");
    let transport_err = TransportError::Io(io_err);
    let conn_err = ConnectionError::from(transport_err);
    match conn_err {
        ConnectionError::Transport(TransportError::Io(_)) => {}
        _ => panic!("Expected ConnectionError::Transport(TransportError::Io(_))"),
    }

    let transport_err = TransportError::Tls("TLS handshake failed".to_string());
    let conn_err = ConnectionError::from(transport_err);
    match conn_err {
        ConnectionError::Transport(TransportError::Tls(_)) => {}
        _ => panic!("Expected ConnectionError::Transport(TransportError::Tls(_))"),
    }

    let transport_err = TransportError::WebSocket("WebSocket upgrade failed".to_string());
    let conn_err = ConnectionError::from(transport_err);
    match conn_err {
        ConnectionError::Transport(TransportError::WebSocket(_)) => {}
        _ => panic!("Expected ConnectionError::Transport(TransportError::WebSocket(_))"),
    }

    let transport_err = TransportError::Timeout;
    let conn_err = ConnectionError::from(transport_err);
    match conn_err {
        ConnectionError::Transport(TransportError::Timeout) => {}
        _ => panic!("Expected ConnectionError::Transport(TransportError::Timeout)"),
    }

    let transport_err = TransportError::Connect("Failed to connect to broker".to_string());
    let conn_err = ConnectionError::from(transport_err);
    match conn_err {
        ConnectionError::Transport(TransportError::Connect(msg))
            if msg == "Failed to connect to broker" => {}
        _ => panic!("Expected ConnectionError::Transport(TransportError::Connect(_))"),
    }

    let transport_err = TransportError::NotConnected;
    let conn_err = ConnectionError::from(transport_err);
    match conn_err {
        ConnectionError::Transport(TransportError::NotConnected) => {}
        _ => panic!("Expected ConnectionError::Transport(TransportError::NotConnected)"),
    }
}

#[test]
fn test_various_mqtt_error_variants() {
    let conn_err = ConnectionError::from(MqttError::MalformedPacket);
    match conn_err {
        ConnectionError::Mqtt(MqttError::MalformedPacket) => {}
        _ => panic!("Expected ConnectionError::Mqtt(MqttError::MalformedPacket)"),
    }
    let conn_err = ConnectionError::from(MqttError::ProtocolError);
    match conn_err {
        ConnectionError::Mqtt(MqttError::ProtocolError) => {}
        _ => panic!("Expected ConnectionError::Mqtt(MqttError::ProtocolError)"),
    }
    let conn_err = ConnectionError::from(MqttError::UnspecifiedError);
    match conn_err {
        ConnectionError::Mqtt(MqttError::UnspecifiedError) => {}
        _ => panic!("Expected ConnectionError::Mqtt(MqttError::UnspecifiedError)"),
    }
    let conn_err = ConnectionError::from(MqttError::ImplementationSpecificError);
    match conn_err {
        ConnectionError::Mqtt(MqttError::ImplementationSpecificError) => {}
        _ => panic!("Expected ConnectionError::Mqtt(MqttError::ImplementationSpecificError)"),
    }
}

#[test]
fn test_error_trait_implementation() {
    // The library's error gives its text by `to_string`; the nested error
    // of a transport is not exposed through it.
    let conn_err = ConnectionError::NotConnected;
    assert_eq!(conn_err.to_string(), "Not connected");

    let io_err = std::io::Error::new(std::io::ErrorKind::BrokenPipe, "Broken pipe");
    let transport_err = TransportError::Io(io_err);
    let conn_err = ConnectionError::Transport(transport_err);
    assert!(conn_err.to_string().starts_with("Transport error: IO error: "));
}

#[test]
fn test_display_formatting() {
    let io_err = std::io::Error::new(std::io::ErrorKind::TimedOut, "Operation timed out");
    let transport_err = TransportError::Io(io_err);
    let conn_err = ConnectionError::Transport(transport_err);
    let display_str = conn_err.to_string();
    assert!(display_str.contains("Transport error"));
    assert!(display_str.contains("IO error"));

    let transport_err = TransportError::Connect("DNS resolution failed".to_string());
    let conn_err = ConnectionError::Transport(transport_err);
    let display_str = conn_err.to_string();
    assert!(display_str.contains("Transport error"));
    assert!(display_str.contains("Connection failed"));
    assert!(display_str.contains("DNS resolution failed"));

    let mqtt_err = MqttError::ProtocolError;
    let conn_err = ConnectionError::Mqtt(mqtt_err);
    let display_str = conn_err.to_string();
    assert!(display_str.contains("MQTT protocol error"));
    assert!(display_str.contains("ProtocolError"));
}

#[test]
fn test_debug_formatting() {
    let variants = vec![
        ConnectionError::ChannelClosed,
        ConnectionError::NotConnected,
        ConnectionError::AlreadyConnected,
        ConnectionError::AlreadyDisconnected,
        ConnectionError::Mqtt(MqttError::MalformedPacket),
        ConnectionError::Transport(TransportError::Timeout),
    ];

    for variant in variants {
        let debug_str = format!("{:?}", variant);
        assert!(!debug_str.is_empty());
        match variant {
            ConnectionError::ChannelClosed => assert!(debug_str.contains("ChannelClosed")),
            ConnectionError::NotConnected => assert!(debug_str.contains("NotConnected")),
            ConnectionError::AlreadyConnected => assert!(debug_str.contains("AlreadyConnected")),
            ConnectionError::AlreadyDisconnected => {
                assert!(debug_str.contains("AlreadyDisconnected"))
            }
            ConnectionError::Mqtt(_) => assert!(debug_str.contains("Mqtt")),
            ConnectionError::Transport(_) => assert!(debug_str.contains("Transport")),
        }
    }
}

fn simulate_mqtt_operation() -> Result<(), ConnectionError> {
    let mqtt_err = MqttError::UnspecifiedError;
    Err(mqtt_err)?;
    Ok(())
}

fn simulate_transport_operation() -> Result<(), ConnectionError> {
    let transport_err = TransportError::Timeout;
    Err(transport_err)?;
    Ok(())
}

#[test]
fn test_question_mark_operator_conversion() {
    let result = simulate_mqtt_operation();
    assert!(result.is_err());
    match result.unwrap_err() {
        ConnectionError::Mqtt(MqttError::UnspecifiedError) => {}
        _ => panic!("Expected ConnectionError::Mqtt(MqttError::UnspecifiedError)"),
    }

    let result = simulate_transport_operation();
    assert!(result.is_err());
    match result.unwrap_err() {
        ConnectionError::Transport(TransportError::Timeout) => {}
        _ => panic!("Expected ConnectionError::Transport(TransportError::Timeout)"),
    }
}

#[test]
fn transport_error_texts() {
    assert_eq!(TransportError::Tls("bad cert".to_string()).to_string(), "TLS error: bad cert");
    assert_eq!(TransportError::WebSocket("x".to_string()).to_string(), "WebSocket error: x");
    assert_eq!(TransportError::Quic("y".to_string()).to_string(), "QUIC error: y");
    assert_eq!(TransportError::NotConnected.to_string(), "Transport not connected");
    let io = std::io::Error::new(std::io::ErrorKind::Other, "disk on fire");
    assert_eq!(TransportError::Io(io).to_string(), "IO error: disk on fire");
}
