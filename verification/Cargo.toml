[package]
name = "rmcp"
version = "0.1.0"
edition = "2021"
publish = false

[dependencies]
http = "1"
schemars = "1"
serde = { version = "1", features = ["derive"] }
serde_json = "1"
tokio-util = "0.7"
tracing = "0.1"
