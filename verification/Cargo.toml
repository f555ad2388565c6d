[package]
name = "aurora-lights-proxy"
version = "0.1.0"
edition = "2021"
publish = false

[dependencies]
anyhow = "1"
ctrlc = "3"
dotenvy = "0.15"
reqwest = { version = "0.12", features = ["blocking", "cookies", "json"] }
rust_socketio = "0.6"
serde_json = "1"
tracing = "0.1"
tracing-subscriber = { version = "0.3", features = ["env-filter", "fmt"] }
