//! An MQTT endpoint whose decision logic is verified.
//!
//! The protocol state machine itself comes from `mqtt-protocol-core`; this
//! crate holds the endpoint logic around it: packet filtering, connection
//! options, error values, the bookkeeping of transports and the event
//! processing of the endpoint, each with a contract that Verus checks.
pub mod mqtt_ep;
