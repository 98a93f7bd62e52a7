[package]
name = "megadodge_mayhem"
version = "0.1.0"
edition = "2021"
publish = false

[dependencies]
bevy = { version = "=0.12.1", default-features = false }
bevy_pkv = "=0.9.1"
bevy_rapier3d = { version = "=0.23.0", default-features = false, features = ["dim3", "headless"] }
rand = "=0.8.8"
serde = { version = "=1.0.229", features = ["derive"] }
