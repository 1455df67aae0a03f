[package]
name = "tunnelforge"
version = "0.1.0"
edition = "2021"
publish = false

[dependencies]
chrono = { version = "0.4", default-features = false, features = ["clock"] }
dirs = "5"
uuid = { version = "1", features = ["v4"] }
which = "6"
serde = { version = "1", features = ["derive"] }
serde_json = "1"
serde_yaml = "0.9"
log = "0.4"
env_logger = "0.11"
libc = "0.2"
reqwest = { version = "0.12", default-features = false, features = ["rustls-tls"] }
