[package]
name = "qobuz_downloader_rust"
version = "0.1.0"
edition = "2021"
publish = false

[dependencies]
regex = "=1.13.1"
tokio-util = "=0.7.20"
tokio = { version = "=1.54.1", features = ["rt-multi-thread"] }
serde = { version = "=1.0.229", features = ["derive"] }
serde_json = "=1.0.154"
oo7 = "*"
