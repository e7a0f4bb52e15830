//! Options that an endpoint applies when a transport is attached.
use vstd::prelude::*;

verus! {

/// Connection options of an endpoint, set for each attach.
#[derive(Debug, Clone)]
pub struct ConnectionOption {
    pingreq_send_interval_ms: Option<u64>,
    auto_pub_response: bool,
    auto_ping_response: bool,
    auto_map_topic_alias_send: bool,
    auto_replace_topic_alias_send: bool,
    pingresp_recv_timeout_ms: u64,
    connection_establish_timeout_ms: u64,
    shutdown_timeout_ms: u64,
    recv_buffer_size: Option<usize>,
    queuing_receive_maximum: bool,
}

/// The builder of [`ConnectionOption`]: each field is unset until a setter
/// gives it a value, and `build` fills the unset ones with their defaults.
#[derive(Debug, Clone)]
pub struct ConnectionOptionBuilder {
    pingreq_send_interval_ms: Option<Option<u64>>,
    auto_pub_response: Option<bool>,
    auto_ping_response: Option<bool>,
    auto_map_topic_alias_send: Option<bool>,
    auto_replace_topic_alias_send: Option<bool>,
    pingresp_recv_timeout_ms: Option<u64>,
    connection_establish_timeout_ms: Option<u64>,
    shutdown_timeout_ms: Option<u64>,
    recv_buffer_size: Option<Option<usize>>,
    queuing_receive_maximum: Option<bool>,
}

/// The error of [`ConnectionOptionBuilder::build`]. Every field has a
/// default, so `build` never returns it.
#[derive(Debug)]
pub enum ConnectionOptionBuilderError {
    UninitializedField(&'static str),
    ValidationError(String),
}

/// The value of an optional builder field: what was set, else the default.
pub open spec fn or_default<T>(v: Option<T>, d: T) -> T {
    match v {
        Some(x) => x,
        None => d,
    }
}

fn take_or<T>(v: Option<T>, d: T) -> (r: T)
    ensures
        r == or_default(v, d),
{
    match v {
        Some(x) => x,
        None => d,
    }
}

/// The values that a [`ConnectionOption`] holds.
pub struct ConnectionOptionView {
    pub pingreq_send_interval_ms: Option<u64>,
    pub auto_pub_response: bool,
    pub auto_ping_response: bool,
    pub auto_map_topic_alias_send: bool,
    pub auto_replace_topic_alias_send: bool,
    pub pingresp_recv_timeout_ms: u64,
    pub connection_establish_timeout_ms: u64,
    pub shutdown_timeout_ms: u64,
    pub recv_buffer_size: Option<usize>,
    pub queuing_receive_maximum: bool,
}

/// The fields that a [`ConnectionOptionBuilder`] has been given.
pub struct ConnectionOptionBuilderView {
    pub pingreq_send_interval_ms: Option<Option<u64>>,
    pub auto_pub_response: Option<bool>,
    pub auto_ping_response: Option<bool>,
    pub auto_map_topic_alias_send: Option<bool>,
    pub auto_replace_topic_alias_send: Option<bool>,
    pub pingresp_recv_timeout_ms: Option<u64>,
    pub connection_establish_timeout_ms: Option<u64>,
    pub shutdown_timeout_ms: Option<u64>,
    pub recv_buffer_size: Option<Option<usize>>,
    pub queuing_receive_maximum: Option<bool>,
}

impl ConnectionOptionView {
    /// The documented defaults: no PINGREQ interval override, automatic
    /// PUBLISH and PING responses, no automatic topic aliases, no PINGRESP
    /// or establish timeout, a shutdown timeout of 5000 ms, the current
    /// receive buffer size, and no queuing on ReceiveMaximum.
    pub open spec fn defaults() -> ConnectionOptionView {
        ConnectionOptionView {
            pingreq_send_interval_ms: None,
            auto_pub_response: true,
            auto_ping_response: true,
            auto_map_topic_alias_send: false,
            auto_replace_topic_alias_send: false,
            pingresp_recv_timeout_ms: 0,
            connection_establish_timeout_ms: 0,
            shutdown_timeout_ms: 5000,
            recv_buffer_size: None,
            queuing_receive_maximum: false,
        }
    }
}

impl ConnectionOptionBuilderView {
    /// The builder with no field set.
    pub open spec fn empty() -> ConnectionOptionBuilderView {
        ConnectionOptionBuilderView {
            pingreq_send_interval_ms: None,
            auto_pub_response: None,
            auto_ping_response: None,
            auto_map_topic_alias_send: None,
            auto_replace_topic_alias_send: None,
            pingresp_recv_timeout_ms: None,
            connection_establish_timeout_ms: None,
            shutdown_timeout_ms: None,
            recv_buffer_size: None,
            queuing_receive_maximum: None,
        }
    }

    /// The options that `build` makes: each field as set, else its default.
    pub open spec fn resolved(self) -> ConnectionOptionView {
        let d = ConnectionOptionView::defaults();
        ConnectionOptionView {
            pingreq_send_interval_ms: or_default(self.pingreq_send_interval_ms, d.pingreq_send_interval_ms),
            auto_pub_response: or_default(self.auto_pub_response, d.auto_pub_response),
            auto_ping_response: or_default(self.auto_ping_response, d.auto_ping_response),
            auto_map_topic_alias_send: or_default(self.auto_map_topic_alias_send, d.auto_map_topic_alias_send),
            auto_replace_topic_alias_send: or_default(self.auto_replace_topic_alias_send, d.auto_replace_topic_alias_send),
            pingresp_recv_timeout_ms: or_default(self.pingresp_recv_timeout_ms, d.pingresp_recv_timeout_ms),
            connection_establish_timeout_ms: or_default(self.connection_establish_timeout_ms, d.connection_establish_timeout_ms),
            shutdown_timeout_ms: or_default(self.shutdown_timeout_ms, d.shutdown_timeout_ms),
            recv_buffer_size: or_default(self.recv_buffer_size, d.recv_buffer_size),
            queuing_receive_maximum: or_default(self.queuing_receive_maximum, d.queuing_receive_maximum),
        }
    }
}

impl View for ConnectionOption {
    type V = ConnectionOptionView;

    closed spec fn view(&self) -> ConnectionOptionView {
        ConnectionOptionView {
            pingreq_send_interval_ms: self.pingreq_send_interval_ms,
            auto_pub_response: self.auto_pub_response,
            auto_ping_response: self.auto_ping_response,
            auto_map_topic_alias_send: self.auto_map_topic_alias_send,
            auto_replace_topic_alias_send: self.auto_replace_topic_alias_send,
            pingresp_recv_timeout_ms: self.pingresp_recv_timeout_ms,
            connection_establish_timeout_ms: self.connection_establish_timeout_ms,
            shutdown_timeout_ms: self.shutdown_timeout_ms,
            recv_buffer_size: self.recv_buffer_size,
            queuing_receive_maximum: self.queuing_receive_maximum,
        }
    }
}

impl View for ConnectionOptionBuilder {
    type V = ConnectionOptionBuilderView;

    closed spec fn view(&self) -> ConnectionOptionBuilderView {
        ConnectionOptionBuilderView {
            pingreq_send_interval_ms: self.pingreq_send_interval_ms,
            auto_pub_response: self.auto_pub_response,
            auto_ping_response: self.auto_ping_response,
            auto_map_topic_alias_send: self.auto_map_topic_alias_send,
            auto_replace_topic_alias_send: self.auto_replace_topic_alias_send,
            pingresp_recv_timeout_ms: self.pingresp_recv_timeout_ms,
            connection_establish_timeout_ms: self.connection_establish_timeout_ms,
            shutdown_timeout_ms: self.shutdown_timeout_ms,
            recv_buffer_size: self.recv_buffer_size,
            queuing_receive_maximum: self.queuing_receive_maximum,
        }
    }
}

impl ConnectionOption {
    /// A builder with no field set.
    pub fn builder() -> (r: ConnectionOptionBuilder)
        ensures
            r@ == ConnectionOptionBuilderView::empty(),
    {
        ConnectionOptionBuilder::default()
    }

    /// PINGREQ send interval override in milliseconds (`Some(0)`: never send).
    pub fn pingreq_send_interval_ms(&self) -> (r: &Option<u64>)
        ensures
            *r == self@.pingreq_send_interval_ms,
    {
        &self.pingreq_send_interval_ms
    }

    /// Whether PUBLISH responses are sent automatically.
    pub fn auto_pub_response(&self) -> (r: &bool)
        ensures
            *r == self@.auto_pub_response,
    {
        &self.auto_pub_response
    }

    /// Whether PINGREQ is answered automatically.
    pub fn auto_ping_response(&self) -> (r: &bool)
        ensures
            *r == self@.auto_ping_response,
    {
        &self.auto_ping_response
    }

    /// Whether topic aliases are mapped automatically on send.
    pub fn auto_map_topic_alias_send(&self) -> (r: &bool)
        ensures
            *r == self@.auto_map_topic_alias_send,
    {
        &self.auto_map_topic_alias_send
    }

    /// Whether topics are replaced by known aliases automatically on send.
    pub fn auto_replace_topic_alias_send(&self) -> (r: &bool)
        ensures
            *r == self@.auto_replace_topic_alias_send,
    {
        &self.auto_replace_topic_alias_send
    }

    /// PINGRESP receive timeout in milliseconds (0: none).
    pub fn pingresp_recv_timeout_ms(&self) -> (r: &u64)
        ensures
            *r == self@.pingresp_recv_timeout_ms,
    {
        &self.pingresp_recv_timeout_ms
    }

    /// Connection establishment timeout in milliseconds (0: none).
    pub fn connection_establish_timeout_ms(&self) -> (r: &u64)
        ensures
            *r == self@.connection_establish_timeout_ms,
    {
        &self.connection_establish_timeout_ms
    }

    /// Shutdown timeout in milliseconds.
    pub fn shutdown_timeout_ms(&self) -> (r: &u64)
        ensures
            *r == self@.shutdown_timeout_ms,
    {
        &self.shutdown_timeout_ms
    }

    /// Receive buffer size in bytes (`None`: keep the current size).
    pub fn recv_buffer_size(&self) -> (r: &Option<usize>)
        ensures
            *r == self@.recv_buffer_size,
    {
        &self.recv_buffer_size
    }

    /// Whether PUBLISH packets are queued when ReceiveMaximum is reached.
    pub fn queuing_receive_maximum(&self) -> (r: &bool)
        ensures
            *r == self@.queuing_receive_maximum,
    {
        &self.queuing_receive_maximum
    }
}

impl Default for ConnectionOption {
    fn default() -> (r: Self)
        ensures
            r@ == ConnectionOptionView::defaults(),
    {
        ConnectionOption {
            pingreq_send_interval_ms: None,
            auto_pub_response: true,
            auto_ping_response: true,
            auto_map_topic_alias_send: false,
            auto_replace_topic_alias_send: false,
            pingresp_recv_timeout_ms: 0,
            connection_establish_timeout_ms: 0,
            shutdown_timeout_ms: 5000,
            recv_buffer_size: None,
            queuing_receive_maximum: false,
        }
    }
}

impl ConnectionOptionBuilder {
    /// Sets the PINGREQ send interval override.
    pub fn pingreq_send_interval_ms(self, value: u64) -> (r: Self)
        ensures
            r@ == (ConnectionOptionBuilderView { pingreq_send_interval_ms: Some(Some(value)), ..self@ }),
    {
        ConnectionOptionBuilder { pingreq_send_interval_ms: Some(Some(value)), ..self }
    }

    /// Sets whether PUBLISH responses are automatic.
    pub fn auto_pub_response(self, value: bool) -> (r: Self)
        ensures
            r@ == (ConnectionOptionBuilderView { auto_pub_response: Some(value), ..self@ }),
    {
        ConnectionOptionBuilder { auto_pub_response: Some(value), ..self }
    }

    /// Sets whether PINGREQ is answered automatically.
    pub fn auto_ping_response(self, value: bool) -> (r: Self)
        ensures
            r@ == (ConnectionOptionBuilderView { auto_ping_response: Some(value), ..self@ }),
    {
        ConnectionOptionBuilder { auto_ping_response: Some(value), ..self }
    }

    /// Sets whether topic aliases are mapped automatically on send.
    pub fn auto_map_topic_alias_send(self, value: bool) -> (r: Self)
        ensures
            r@ == (ConnectionOptionBuilderView { auto_map_topic_alias_send: Some(value), ..self@ }),
    {
        ConnectionOptionBuilder { auto_map_topic_alias_send: Some(value), ..self }
    }

    /// Sets whether known aliases replace topics automatically on send.
    pub fn auto_replace_topic_alias_send(self, value: bool) -> (r: Self)
        ensures
            r@ == (ConnectionOptionBuilderView { auto_replace_topic_alias_send: Some(value), ..self@ }),
    {
        ConnectionOptionBuilder { auto_replace_topic_alias_send: Some(value), ..self }
    }

    /// Sets the PINGRESP receive timeout.
    pub fn pingresp_recv_timeout_ms(self, value: u64) -> (r: Self)
        ensures
            r@ == (ConnectionOptionBuilderView { pingresp_recv_timeout_ms: Some(value), ..self@ }),
    {
        ConnectionOptionBuilder { pingresp_recv_timeout_ms: Some(value), ..self }
    }

    /// Sets the connection establishment timeout.
    pub fn connection_establish_timeout_ms(self, value: u64) -> (r: Self)
        ensures
            r@ == (ConnectionOptionBuilderView { connection_establish_timeout_ms: Some(value), ..self@ }),
    {
        ConnectionOptionBuilder { connection_establish_timeout_ms: Some(value), ..self }
    }

    /// Sets the shutdown timeout.
    pub fn shutdown_timeout_ms(self, value: u64) -> (r: Self)
        ensures
            r@ == (ConnectionOptionBuilderView { shutdown_timeout_ms: Some(value), ..self@ }),
    {
        ConnectionOptionBuilder { shutdown_timeout_ms: Some(value), ..self }
    }

    /// Sets the receive buffer size.
    pub fn recv_buffer_size(self, value: usize) -> (r: Self)
        ensures
            r@ == (ConnectionOptionBuilderView { recv_buffer_size: Some(Some(value)), ..self@ }),
    {
        ConnectionOptionBuilder { recv_buffer_size: Some(Some(value)), ..self }
    }

    /// Sets whether PUBLISH packets are queued when ReceiveMaximum is reached.
    pub fn queuing_receive_maximum(self, value: bool) -> (r: Self)
        ensures
            r@ == (ConnectionOptionBuilderView { queuing_receive_maximum: Some(value), ..self@ }),
    {
        ConnectionOptionBuilder { queuing_receive_maximum: Some(value), ..self }
    }

    /// Builds the options; every unset field takes its default.
    pub fn build(self) -> (r: Result<ConnectionOption, ConnectionOptionBuilderError>)
        ensures
            r matches Ok(o) && o@ == self@.resolved(),
    {
        Ok(ConnectionOption {
            pingreq_send_interval_ms: take_or(self.pingreq_send_interval_ms, None),
            auto_pub_response: take_or(self.auto_pub_response, true),
            auto_ping_response: take_or(self.auto_ping_response, true),
            auto_map_topic_alias_send: take_or(self.auto_map_topic_alias_send, false),
            auto_replace_topic_alias_send: take_or(self.auto_replace_topic_alias_send, false),
            pingresp_recv_timeout_ms: take_or(self.pingresp_recv_timeout_ms, 0),
            connection_establish_timeout_ms: take_or(self.connection_establish_timeout_ms, 0),
            shutdown_timeout_ms: take_or(self.shutdown_timeout_ms, 5000),
            recv_buffer_size: take_or(self.recv_buffer_size, None),
            queuing_receive_maximum: take_or(self.queuing_receive_maximum, false),
        })
    }
}

impl Default for ConnectionOptionBuilder {
    fn default() -> (r: Self)
        ensures
            r@ == ConnectionOptionBuilderView::empty(),
    {
        ConnectionOptionBuilder {
            pingreq_send_interval_ms: None,
            auto_pub_response: None,
            auto_ping_response: None,
            auto_map_topic_alias_send: None,
            auto_replace_topic_alias_send: None,
            pingresp_recv_timeout_ms: None,
            connection_establish_timeout_ms: None,
            shutdown_timeout_ms: None,
            recv_buffer_size: None,
            queuing_receive_maximum: None,
        }
    }
}

/// Building from an empty builder gives the default options.
pub proof fn law_empty_builder_is_default()
    ensures
        ConnectionOptionBuilderView::empty().resolved() == ConnectionOptionView::defaults(),
{
}

/// A value given to a setter is the value that the built options hold,
/// whatever was set before, and the other fields keep what was set.
pub proof fn law_setter_then_build_reads_back(b: ConnectionOptionBuilderView, ms: u64, size: usize, flag: bool)
    ensures
        (ConnectionOptionBuilderView { shutdown_timeout_ms: Some(ms), ..b }).resolved().shutdown_timeout_ms == ms,
        (ConnectionOptionBuilderView { connection_establish_timeout_ms: Some(ms), ..b }).resolved().connection_establish_timeout_ms == ms,
        (ConnectionOptionBuilderView { pingresp_recv_timeout_ms: Some(ms), ..b }).resolved().pingresp_recv_timeout_ms == ms,
        (ConnectionOptionBuilderView { pingreq_send_interval_ms: Some(Some(ms)), ..b }).resolved().pingreq_send_interval_ms == Some(ms),
        (ConnectionOptionBuilderView { recv_buffer_size: Some(Some(size)), ..b }).resolved().recv_buffer_size == Some(size),
        (ConnectionOptionBuilderView { queuing_receive_maximum: Some(flag), ..b }).resolved().queuing_receive_maximum == flag,
        (ConnectionOptionBuilderView { auto_pub_response: Some(flag), ..b }).resolved().auto_pub_response == flag,
        (ConnectionOptionBuilderView { auto_ping_response: Some(flag), ..b }).resolved().auto_ping_response == flag,
        (ConnectionOptionBuilderView { auto_map_topic_alias_send: Some(flag), ..b }).resolved().auto_map_topic_alias_send == flag,
        (ConnectionOptionBuilderView { auto_replace_topic_alias_send: Some(flag), ..b }).resolved().auto_replace_topic_alias_send == flag,
        (ConnectionOptionBuilderView { shutdown_timeout_ms: Some(ms), ..b }).resolved().queuing_receive_maximum == b.resolved().queuing_receive_maximum,
{
}

} // verus!
