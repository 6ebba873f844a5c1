# embedded_recruitment_task

A small TCP message server. Clients send frames (a four-byte big-endian
size header, then a protobuf `ClientMessage`); the server answers each frame
with a protobuf `ServerMessage`: echo requests are echoed, add requests are
summed (status 1), oversized or undecodable payloads get status 2, payloads
without a known request status 3. At most a configured number of clients are
served at a time; a stopped server tells its clients `SHUTDOWN` between
frames.

Layout:

- `src/` — the verified library (Verus):
  - `message.rs` — the message types and their models;
  - `protocol.rs` — status codes, the size limit, framing, and the reply
    owed to each request;
  - `session.rs` — the state machine of one connection, which reassembles
    frames from reads of any size;
  - `admission.rs` — which connections are served.
- `app/` — the sockets, threads and protobuf encoding around the library
  (`Server::new`, `run`, `stop`, `get_active_connections`).
- `tests/` — tests of the library on concrete values.
