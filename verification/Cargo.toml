[package]
name = "memo_ai"
version = "0.1.0"
edition = "2021"
publish = false

[dependencies]
serde = { version = "1", features = ["derive"] }
serde_json = "1"
hound = "3.5"
chrono = "0.4"
reqwest = { version = "0.12", default-features = false, features = ["blocking", "json", "multipart", "rustls-tls"] }
rusqlite = { version = "*", features = ["bundled"] }
tungstenite = "0.24"
toml = "*"
log = "0.4"
env_logger = "*"
cpal = "*"
