[package]
name = "openhuman"
version = "0.1.0"
edition = "2021"
publish = false

[dependencies]
serde = { version = "=1.0.229", features = ["derive"] }
serde_json = "=1.0.154"
uuid = { version = "=1.29.0", features = ["v4"] }
tokio = { version = "=1.54.1", default-features = false, features = ["sync"] }
tracing = "=0.1.44"
sentry = { version = "=0.49.5", default-features = false }
