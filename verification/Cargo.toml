[package]
name = "cyberflow"
version = "0.1.0"
edition = "2021"
publish = false

[dependencies]
rand = "0.8"
tokio = { version = "1", features = ["sync", "time", "net", "rt", "macros"] }
serde = { version = "1", features = ["derive"] }
serde_json = "1"
axum = { version = "0.7", default-features = false, features = ["json", "tokio", "http1"] }
log = "0.4"
specta = "1"
