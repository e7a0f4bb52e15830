//! Transport-level values: the error type of transports and the
//! bookkeeping that the transports of the application run on.
use vstd::prelude::*;
use vstd::string::*;

use crate::mqtt_ep::protocol::io_error_text;

pub mod address;
pub mod message_buffer;
pub mod tls;
pub mod write_progress;

pub use tls::TlsTransport;

verus! {

/// An error of a transport operation.
///
/// The TLS, WebSocket and QUIC variants hold the text of the underlying
/// error: the endpoint only ever reads that text.
#[derive(Debug)]
pub enum TransportError {
    Io(std::io::Error),
    Tls(String),
    WebSocket(String),
    Quic(String),
    Timeout,
    Connect(String),
    NotConnected,
}

impl TransportError {
    /// Whether `text` is the text of this error: the variant's prefix, then
    /// the message it holds. Of an I/O error only the prefix is known.
    pub open spec fn describes(&self, text: Seq<char>) -> bool {
        match self {
            TransportError::Io(_) => text.len() >= 10 && text.subrange(0, 10) == "IO error: "@,
            TransportError::Tls(m) => text == "TLS error: "@ + m@,
            TransportError::WebSocket(m) => text == "WebSocket error: "@ + m@,
            TransportError::Quic(m) => text == "QUIC error: "@ + m@,
            TransportError::Timeout => text == "Operation timed out"@,
            TransportError::Connect(m) => text == "Connection failed: "@ + m@,
            TransportError::NotConnected => text == "Transport not connected"@,
        }
    }

    /// The human-readable text of the error.
    pub fn to_string(&self) -> (r: String)
        ensures
            self.describes(r@),
    {
        proof {
            reveal_strlit("IO error: ");
        }
        match self {
            TransportError::Io(e) => {
                let inner = io_error_text(e);
                let s = String::from_str("IO error: ");
                let r = s.concat(inner.as_str());
                assert(r@.subrange(0, 10) =~= "IO error: "@);
                r
            },
            TransportError::Tls(m) => String::from_str("TLS error: ").concat(m.as_str()),
            TransportError::WebSocket(m) => String::from_str("WebSocket error: ").concat(m.as_str()),
            TransportError::Quic(m) => String::from_str("QUIC error: ").concat(m.as_str()),
            TransportError::Timeout => String::from_str("Operation timed out"),
            TransportError::Connect(m) => String::from_str("Connection failed: ").concat(m.as_str()),
            TransportError::NotConnected => String::from_str("Transport not connected"),
        }
    }
}

impl From<std::io::Error> for TransportError {
    fn from(e: std::io::Error) -> (r: Self) {
        TransportError::Io(e)
    }
}

impl vstd::std_specs::convert::FromSpecImpl<std::io::Error> for TransportError {
    open spec fn obeys_from_spec() -> bool {
        true
    }

    open spec fn from_spec(v: std::io::Error) -> Self {
        TransportError::Io(v)
    }
}

} // verus!
