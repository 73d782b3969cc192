[package]
name = "bastion-http"
version = "0.1.0"
edition = "2021"
publish = false

[dependencies]
url = "=2.5.8"
serde = { version = "=1.0.229", features = ["derive"] }
serde_json = "=1.0.154"
base64 = "=0.22.1"
chrono-tz = "=0.10.4"
mime_guess = "=2.0.5"
time = "0.3"
blake3 = { version = "1", features = ["pure"] }
