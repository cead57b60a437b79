[package]
name = "rig-redis-vectorstore"
version = "0.1.1"
edition = "2021"
publish = false

[dependencies]
redis = { version = "1", features = ["aio", "connection-manager", "tokio-comp"] }
rig-core = { version = "0.38", default-features = false }
serde = { version = "1", features = ["derive"] }
serde_json = "1"
tracing = "0.1"
uuid = { version = "1", features = ["v4"] }
