# minecraft_proxy

A Minecraft status/login proxy whose protocol core is verified with Verus.

- `src/codec.rs` — VarInt, big-endian integers and length-prefixed UTF-8
  strings, each with a decoding spec, an encoder and decoder proved against
  it, and round-trip laws.
- `src/packet.rs` — the `Packet` trait, packet framing and `get_packet_size`.
- `src/packets/` — handshake, login start, login success, ping/pong, status
  and set-compression packets.
- `src/connection/` — the per-connection state machines: `ProxiedConnection`
  (status, ping, login and hand-over to a backend) and `UserConnection`.
- `src/random.rs` — random UUIDs from the `uuid` crate.
- `app/main.rs` — the TCP listener, the socket buffer that hands unread bytes
  to the state machines, and traffic relaying.
