# mqtt-endpoint-tokio (verified core)

An asynchronous MQTT v5.0 / v3.1.1 endpoint on tokio, built around the
Sans-I/O protocol state machine of `mqtt-protocol-core`.

- `src/` is the library, verified with Verus. `mqtt_ep::endpoint::engine`
  holds `EndpointCore`, the endpoint's state machine: it takes the
  application's requests and the transport's, timers' and protocol
  machine's events, and hands back, one at a time, the replies and the
  transport actions to perform. Around it: packet filters, connection
  options, error values, address parsing and URL forming, the bookkeeping
  of partial vectored writes and of WebSocket message reads.
  `mqtt_ep::protocol` holds the trusted calls into `mqtt-protocol-core`.
- `app/` is the tokio side: the request task that runs `EndpointCore` and
  carries out its actions, the transports (TCP, TLS, Unix socket, WebSocket,
  QUIC) and the connection helpers.
- `tests/` runs the library on concrete values.

Not offered: a query whether a PUBLISH is being processed. The state
machine of `mqtt-protocol-core` 0.7.9, which the endpoint is built on, keeps
no such state that it hands out, so the endpoint has nothing to answer it
from.
