# bancho

The verified core of a small Bancho server for osu! clients.

- `src/wire.rs`: little-endian integers, length-prefixed strings and `i32`
  arrays, with decoders that say how many bytes they still need.
- `src/packets.rs`: request types, the packet header, and the packets the server
  sends, each with its exact bytes.
- `src/misc.rs`: wire sizes (`ByteCount`), time arithmetic, non-blocking reads.
- `src/web.rs`: the web API's addresses and its login answer.
- `src/session.rs`: the rules of a client session (login reply, ping and pong,
  chat relay, request handling) and the server's small decisions.
- `app/`: the program around it: TCP and HTTP, tasks and channels, the float
  fields of player statistics.
