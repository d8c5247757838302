[package]
name = "trade"
version = "0.1.0"
edition = "2021"
publish = false

[dependencies]
openssl = "=0.10.82"
hex = "=0.4.3"
chrono = "0.4"
base64 = "0.13"
serde = { version = "1", features = ["derive"] }
serde_json = "1"
