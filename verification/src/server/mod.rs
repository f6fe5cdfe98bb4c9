//! The server: the client registry with its mailboxes, and the simulation.

pub mod connection_handling;
pub mod game;
