[package]
name = "solana_poller"
version = "0.1.0"
edition = "2021"
publish = false

[dependencies]
anyhow = "*"
async-trait = "*"
dashmap = "*"
reqwest = { version = "*", default-features = false }
serde = { version = "*", features = ["derive"] }
serde_json = "*"
tokio = { version = "*", features = ["rt", "time"] }
tracing = "*"
tracing-subscriber = { version = "*", features = ["env-filter"] }
