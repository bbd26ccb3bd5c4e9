[package]
name = "fusiontunx"
version = "0.1.0"
edition = "2021"
publish = false

[dependencies]
axum = { version = "0.7", features = ["ws", "multipart"] }
base64 = "0.22"
chrono = "0.4"
flate2 = "1"
futures-util = { version = "0.3", features = ["sink"] }
libc = "0.2"
mime_guess = "2"
reqwest = { version = "0.12", default-features = false, features = ["rustls-tls", "json", "stream"] }
rust-embed = "8"
serde = { version = "1", features = ["derive"] }
serde_json = "1"
serde_yaml = "0.9"
tar = "0.4"
tokio = { version = "1", features = ["full"] }
tower-http = { version = "0.5", features = ["cors"] }
url = "2"
walkdir = "2"
