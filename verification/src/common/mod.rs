//! Types shared by the server and the client.

pub mod address;
pub mod client_to_server;
pub mod components;
pub mod game_objects;
pub mod queues;
pub mod server_to_client;
pub mod timestep;
pub mod vec2;
pub mod wire;
