[package]
name = "mcproxy"
version = "0.1.0"
edition = "2021"
publish = false

[dependencies]
dashmap = "6"
uuid = { version = "1", features = ["v4"] }
serde = { version = "1", features = ["derive"] }
serde_json = "1"
tokio = { version = "1", features = ["full"] }
tokio-tungstenite = "*"
futures-util = { version = "0.3", features = ["sink"] }
log = "0.4"
env_logger = "*"
