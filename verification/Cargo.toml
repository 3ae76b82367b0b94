[package]
name = "rust_proxy"
version = "0.1.0"
edition = "2021"
publish = false

[dependencies]
tokio = { version = "1", features = ["sync", "rt-multi-thread", "time", "net", "io-util", "macros"] }
url = "2"
serde = { version = "1", features = ["derive"] }
serde_yaml = "0.9"
