[package]
name = "photon_engine"
version = "0.1.0"
edition = "2021"
publish = false

[dependencies]
env_logger = "*"
glam = "*"
log = "0.4"
serde = { version = "1", features = ["derive"] }
serde_json = "1"
