[package]
name = "dictum"
version = "1.0.0"
edition = "2021"
publish = false

[dependencies]
anyhow = "1"
arboard = "3"
crossbeam-channel = "0.5"
dirs = "5"
env_logger = "0.11"
flexi_logger = "0.28"
hex = "0.4"
hound = "3.5"
log = "0.4"
reqwest = { version = "0.12", default-features = false, features = ["blocking", "json", "rustls-tls"] }
serde = { version = "1", features = ["derive"] }
serde_json = "1"
sha2 = "0.10"
tiny_http = "0.12"
