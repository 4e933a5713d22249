[package]
name = "celery_brokers"
version = "0.1.0"
edition = "2021"
publish = false

[dependencies]
async-stream = "0.3"
async-trait = "0.1"
chrono = "0.4"
futures = "0.3"
futures-lite = "2"
lapin = { version = "2", default-features = false }
log = "0.4"
redis = { version = "1", features = ["tokio-comp", "connection-manager", "streams"] }
serde_json = "1"
tokio = { version = "1", features = ["rt", "sync", "time", "macros"] }
tokio-executor-trait = "2"
tokio-reactor-trait = "1"
tokio-stream = { version = "0.1", features = ["sync"] }
tokio-util = { version = "0.7", features = ["rt"] }
uuid = { version = "1", features = ["v4"] }
