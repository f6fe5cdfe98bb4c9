//! Authoritative networking core of a small real-time multiplayer game.
//!
//! The crate holds the parts of the server and of the client that decide
//! something: the client registry, the bounded mailboxes, the handling of
//! each message kind, and the fixed-timestep loop. Sockets, clocks, wire
//! encoding and rendering stay with the caller, which hands this crate plain
//! values and gets plain values back.

pub mod client;
pub mod common;
pub mod server;
