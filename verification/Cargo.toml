[package]
name = "tokenunion"
version = "0.1.0"
edition = "2021"
publish = false

[dependencies]
age = "0.11"
anyhow = "1"
base64 = "0.22"
chrono = "0.4"
libp2p = { version = "0.54", features = ["ed25519"] }
pbkdf2 = "0.12"
rand = "0.8"
rusqlite = { version = "0.31", features = ["bundled"] }
serde = { version = "1", features = ["derive"] }
serde_json = "1"
sha2 = "0.10"
tokio = { version = "1", features = ["full"] }
url = "2"
urlencoding = "2"
uuid = { version = "1", features = ["v4"] }
