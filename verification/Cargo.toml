[package]
name = "media_sub"
version = "0.1.0"
edition = "2021"
publish = false

[dependencies]
regex = "=1.13.1"
chrono = "=0.4.45"
serde = { version = "=1.0.229", features = ["derive"] }
serde_json = "=1.0.154"
base64 = "0.22"
ring = "0.17"
uuid = { version = "1", features = ["v4"] }
