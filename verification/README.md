# raw_nusb

A USB bulk transport for an RPC host client. The library decides what to ask of
the host and what to make of its replies; it makes no request itself.

- `src/endpoint.rs`: the endpoints of an interface, and what they offer.
- `src/link.rs`: the pair of endpoints that carries messages.
- `src/connect.rs`: a connection as a sequence of requests and replies.
- `src/client.rs`: the client of a connected device, and the ways to begin a
  connection.
- `src/session.rs`: how connections end on a given host, as laws.
- `src/wire.rs`: sending and receiving one message.
- `src/packets.rs`: what messages are on the bus, as laws.
- `src/descriptors.rs`: the calls into `nusb`, and what is taken for granted of
  them.
- `app/`: the transport itself, which makes the requests through `nusb`.
