[package]
name = "madder_core"
version = "0.1.0"
edition = "2021"
publish = false

[dependencies]
serde = { version = "1", features = ["derive"] }
serde_json = "1"
serde_yaml = "0.8"
uuid = { version = "1", features = ["v4"] }
route-recognizer = "0.1"
base64 = "0.13"
ws = "0.9"
