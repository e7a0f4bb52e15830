//! The error type of every endpoint operation.
use vstd::prelude::*;
use vstd::string::*;

use mqtt_protocol_core::mqtt::result_code::MqttError;

use crate::mqtt_ep::protocol::{mqtt_error_debug, mqtt_error_text};
use crate::mqtt_ep::transport::TransportError;

verus! {

/// An error of an MQTT endpoint operation: a protocol error, a transport
/// error, or an operation that the endpoint's state does not allow.
#[derive(Debug)]
pub enum ConnectionError {
    /// A protocol-level error reported by the MQTT state machine.
    Mqtt(MqttError),
    /// An I/O or transport-level error.
    Transport(TransportError),
    /// The endpoint's request channel has closed.
    ChannelClosed,
    /// The operation needs an attached transport and there is none.
    NotConnected,
    /// A transport is already attached.
    AlreadyConnected,
    /// The connection is already closed.
    AlreadyDisconnected,
}

impl ConnectionError {
    /// Whether `text` is the text of this error.
    pub open spec fn describes(&self, text: Seq<char>) -> bool {
        match self {
            ConnectionError::Mqtt(e) => text == "MQTT protocol error: "@ + mqtt_error_debug(*e),
            ConnectionError::Transport(e) => text.len() >= 17 && text.subrange(0, 17)
                == "Transport error: "@ && e.describes(text.subrange(17, text.len() as int)),
            ConnectionError::ChannelClosed => text == "Internal channel closed"@,
            ConnectionError::NotConnected => text == "Not connected"@,
            ConnectionError::AlreadyConnected => text == "Already connected"@,
            ConnectionError::AlreadyDisconnected => text == "Already disconnected"@,
        }
    }

    /// The human-readable text of the error.
    pub fn to_string(&self) -> (r: String)
        ensures
            self.describes(r@),
    {
        proof {
            reveal_strlit("MQTT protocol error: ");
            reveal_strlit("Transport error: ");
        }
        match self {
            ConnectionError::Mqtt(e) => {
                let inner = mqtt_error_text(e);
                String::from_str("MQTT protocol error: ").concat(inner.as_str())
            },
            ConnectionError::Transport(e) => {
                let inner = e.to_string();
                let r = String::from_str("Transport error: ").concat(inner.as_str());
                assert(r@.subrange(0, 17) =~= "Transport error: "@);
                assert(r@.subrange(17, r@.len() as int) =~= inner@);
                r
            },
            ConnectionError::ChannelClosed => String::from_str("Internal channel closed"),
            ConnectionError::NotConnected => String::from_str("Not connected"),
            ConnectionError::AlreadyConnected => String::from_str("Already connected"),
            ConnectionError::AlreadyDisconnected => String::from_str("Already disconnected"),
        }
    }
}

impl From<MqttError> for ConnectionError {
    fn from(e: MqttError) -> (r: Self) {
        ConnectionError::Mqtt(e)
    }
}

impl vstd::std_specs::convert::FromSpecImpl<MqttError> for ConnectionError {
    open spec fn obeys_from_spec() -> bool {
        true
    }

    open spec fn from_spec(v: MqttError) -> Self {
        ConnectionError::Mqtt(v)
    }
}

impl From<TransportError> for ConnectionError {
    fn from(e: TransportError) -> (r: Self) {
        ConnectionError::Transport(e)
    }
}

impl vstd::std_specs::convert::FromSpecImpl<TransportError> for ConnectionError {
    open spec fn obeys_from_spec() -> bool {
        true
    }

    open spec fn from_spec(v: TransportError) -> Self {
        ConnectionError::Transport(v)
    }
}

} // verus!
