[package]
name = "corky_relay"
version = "0.1.0"
edition = "2021"
publish = false

[dependencies]
serde_json = { version = "1", features = ["preserve_order"] }
serde = { version = "1", features = ["derive"] }
toml = "*"
dirs = "*"
log = "0.4"
env_logger = "*"
zmq = "*"
