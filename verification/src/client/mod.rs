//! The client: its mirror of the world, kept up to date from what the server
//! sends, and what it reports back.

pub mod game;
