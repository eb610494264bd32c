//! Client side of a peer-to-peer gossip-network bootstrap handshake.
//!
//! The crate provides the binary message codec (length-prefixed, checksummed
//! frames with version-gated payload layouts) and the decision logic of the
//! handshake state machine. Socket I/O is left to the caller, which feeds
//! received bytes in and writes the returned frames out.
pub mod cli;
pub mod cursor;
pub mod error;
pub mod messages;
pub mod node;
