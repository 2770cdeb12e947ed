[package]
name = "codexmanager_service"
version = "0.1.0"
edition = "2021"
publish = false

[dependencies]
rand = "0.8"
reqwest = { version = "0.12", default-features = false, features = ["blocking", "json", "socks"] }
serde = { version = "1", features = ["derive"] }
serde_json = "1"
url = "2"
