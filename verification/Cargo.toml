[package]
name = "adbbar"
version = "0.1.0"
edition = "2021"
publish = false

[dependencies]
serde = { version = "1", features = ["derive"] }
serde_json = "1"
tokio = { version = "1", features = ["sync", "fs", "time", "net", "rt", "macros"] }
dirs = "5"
local-ip-address = "0.6"
reqwest = { version = "0.12", default-features = false, features = ["rustls-tls"] }
