//! Request/response logic of a small TCP message server.
//!
//! Clients send length-prefixed frames (a four-byte big-endian size header
//! followed by a protobuf payload). The server answers each frame with one
//! `ServerMessage`: echo requests are echoed, add requests are summed,
//! oversized, malformed and unsupported requests get an error status. The
//! server admits at most a configured number of connections at a time.
//!
//! This crate holds the decisions of that protocol, verified with Verus:
//! the message model, the reply to each request, the framing, the
//! per-connection state machine and the admission of connections.
pub mod admission;
pub mod message;
pub mod protocol;
pub mod session;
