[package]
name = "agent_engine"
version = "0.1.0"
edition = "2021"
publish = false

[dependencies]
tokio = { version = "1", features = ["sync", "rt-multi-thread", "time", "macros", "fs"] }
serde = { version = "1", features = ["derive"] }
serde_json = "1"
reqwest = { version = "*", default-features = false }
anyhow = "1"
futures = "0.3"
tracing = "0.1"
tracing-subscriber = "0.3"
