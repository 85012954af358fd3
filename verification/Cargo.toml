[package]
name = "hybrid_llm_core"
version = "0.1.0"
edition = "2021"
publish = false

[dependencies]
regex = "*"
chrono = "*"
tokio = { version = "*", features = ["rt", "rt-multi-thread", "sync", "macros", "fs", "time"] }
serde = { version = "*", features = ["derive"] }
serde_json = "*"
uuid = { version = "*", features = ["v4"] }
async-trait = "*"
dashmap = "*"
walkdir = "*"
tracing = "*"
tracing-subscriber = "*"
thiserror = "*"
