//! Network session core for a line-oriented chat protocol.
//!
//! The library owns the pure logic of a chat client's network session:
//! the wire codec (decoding inbound server lines into structured events,
//! encoding outbound user text and the opening handshake), connection
//! settings, and the session state machine that tracks one connection's
//! lifecycle across its reader and writer loops. All I/O stays outside;
//! callers feed lines and events in and take plain values out.

pub mod codec;
pub mod commands;
pub mod connection;
pub mod laws;
pub mod session;
