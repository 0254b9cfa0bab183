[package]
name = "openless"
version = "0.1.0"
edition = "2021"
publish = false

[dependencies]
regex = "1"
serde = { version = "1", features = ["derive"] }
serde_json = "1"
url = "2"
hmac = "0.12"
sha1 = "0.10"
base64 = "0.22"
