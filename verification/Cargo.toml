[package]
name = "secure_proxy"
version = "0.1.0"
edition = "2021"
publish = false

[dependencies]
base64 = "0.21"
hyper = { version = "0.14", features = ["full"] }
serde = { version = "1", features = ["derive"] }
tokio = { version = "1", features = ["full"] }
toml = "0.8"
tracing = "0.1"
tracing-subscriber = "0.3"
