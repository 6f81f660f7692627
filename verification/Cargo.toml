[package]
name = "rholang_language_server"
version = "0.1.0"
edition = "2021"
publish = false

[dependencies]
ropey = "=1.6.1"
serde = { version = "=1.0.229", features = ["derive"] }
tokio = { version = "1", default-features = false, features = ["sync"] }
