[package]
name = "minllm"
version = "0.1.0"
edition = "2021"
publish = false

[dependencies]
parking_lot = "*"
serde_json = "*"
tokio = { version = "*", features = ["rt", "rt-multi-thread", "time", "sync"] }
futures = "*"
log = "*"
