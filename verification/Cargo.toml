[package]
name = "spool_core"
version = "0.1.0"
edition = "2021"
publish = false

[dependencies]
chrono = { version = "=0.4.45", default-features = false, features = ["std", "clock"] }
blake3 = "=1.8.7"
steam_shortcuts_util = "=1.1.9"
url = "=2.5.8"
serde = { version = "=1.0.229", features = ["derive"] }
serde_json = "=1.0.154"
serde_yaml = "=0.9.34"
urlencoding = "=2.1.3"
base64 = "=0.22.1"
image = { version = "=0.25.10", default-features = false, features = ["png", "webp"] }
dirs = "*"
winreg = "*"
