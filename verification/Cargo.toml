[package]
name = "oa_engine"
version = "0.1.0"
edition = "2021"
publish = false

[dependencies]
taguchi = { version = "=0.2.0", features = ["doe"] }
ndarray = "0.16"
uuid = { version = "=1.27.0", features = ["v4"] }
chrono = "=0.4.45"
serde = { version = "=1.0.229", features = ["derive"] }
serde_json = "=1.0.151"
