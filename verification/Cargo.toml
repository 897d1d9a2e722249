[package]
name = "axum-test-helper"
version = "0.1.0"
edition = "2021"
publish = false

[dependencies]
axum = "0.7"
bytes = "1"
http = "1"
reqwest = { version = "0.12", default-features = false, features = ["cookies", "json", "multipart"] }
serde = "1"
serde_json = "1"
serde_urlencoded = "0.7"
tokio = { version = "1", features = ["net", "rt"] }
tower = { version = "*", features = ["make"] }
tower-service = "0.3"
