//! The MQTT endpoint: packets are filtered, options applied and protocol
//! events turned into transport actions by the verified core.
pub mod connection_error;
pub mod connection_option;
pub mod endpoint;
pub mod packet_filter;
pub mod protocol;
pub mod transport;

pub use connection_error::ConnectionError;
pub use connection_option::ConnectionOption;
pub use endpoint::{EndpointCore, Mode};
pub use packet_filter::{PacketFilter, PacketType};
pub use transport::TransportError;
