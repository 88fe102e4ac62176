[package]
name = "goose_agent"
version = "0.1.0"
edition = "2021"
publish = false

[dependencies]
anyhow = "1"
async-stream = "0.3"
futures = "0.3"
futures-util = "0.3"
regex = "1"
serde_json = "1"
tokio = { version = "1", features = ["macros", "rt", "sync"] }
tracing = "0.1"
