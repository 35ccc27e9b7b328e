[package]
name = "adg_companion"
version = "0.1.0"
edition = "2021"
publish = false

[dependencies]
anyhow = "=1.0.104"
base64 = "=0.22.1"
dirs = "=6.0.0"
keyring = { version = "=3.6.3", features = ["windows-native"] }
reqwest = { version = "=0.12.28", default-features = false, features = ["json", "rustls-tls"] }
serde = { version = "=1.0.229", features = ["derive"] }
serde_json = "=1.0.154"
sysinfo = "0.33"
tokio = { version = "=1.54.1", features = ["sync", "time"] }
