[package]
name = "prodtunnel"
version = "0.1.0"
edition = "2021"
publish = false

[dependencies]
uuid = { version = "=1.29.0", features = ["v4", "serde"] }
getrandom = "=0.4.3"
serde = { version = "=1.0.229", features = ["derive"] }
serde_json = "=1.0.154"
tokio = { version = "=1.54.1", features = ["full"] }
tokio-util = "=0.7.20"
anyhow = "=1.0.104"
rusqlite = { version = "=0.41.1", features = ["bundled"] }
keyring = "=3.6.3"
fast-socks5 = "=1.0.0"
russh = "=0.65.0"
