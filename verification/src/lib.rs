//! Two peers play a turn-based board game (chess) over a stream connection.
//!
//! This crate holds the peer-to-peer core: the wire codec (one JSON value
//! per message), the queue model of the message transport, the handshake
//! that assigns colors, and the per-peer turn state machines for the
//! client and server roles.  Move legality and checkmate detection are
//! delegated to an external rules engine.

pub mod logic;
pub mod protocol;
pub mod transport;
pub mod codec;
pub mod wire;
pub mod text;
pub mod encode;
pub mod decode;
pub mod message;
pub mod engine;
pub mod handshake;
pub mod client;
pub mod server;
