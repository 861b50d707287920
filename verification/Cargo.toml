[package]
name = "spatial_game"
version = "0.1.0"
edition = "2021"
publish = false

[dependencies]
ahash = "0.8"
rand = "0.8"
serde = { version = "1", features = ["derive"] }
serde_json = "1"
