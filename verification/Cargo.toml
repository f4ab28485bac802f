[package]
name = "record_service"
version = "0.1.0"
edition = "2021"
publish = false

[dependencies]
axum = "0.8"
chrono = "0.4"
serde_json = "1"
serde_yaml = "0.9"
tokio = { version = "1", features = ["full"] }
uuid = { version = "1", features = ["v4"] }
