[package]
name = "multiplayer"
version = "0.1.0"
edition = "2021"
publish = false

[dependencies]
bincode = "1"
crossbeam = "0.8"
glam = { version = "*", features = ["serde"] }
hecs = "*"
raylib = "*"
serde = { version = "1", features = ["derive"] }
tokio = { version = "1", features = ["full"] }
