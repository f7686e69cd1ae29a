[package]
name = "nfc_gateway"
version = "0.1.0"
edition = "2021"
publish = false

[dependencies]
crossbeam-channel = "*"
env_logger = "*"
futures = "*"
log = "*"
pcsc = "*"
serde = { version = "*", features = ["derive"] }
serde_json = "*"
tokio = { version = "*", features = ["full"] }
warp = "*"
