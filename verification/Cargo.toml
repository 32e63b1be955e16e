[package]
name = "ingame_clock"
version = "0.1.0"
edition = "2021"
publish = false

[dependencies]
chrono = "*"
serde = { version = "*", features = ["derive"] }
bevy = { version = "*", default-features = false }
