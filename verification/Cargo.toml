[package]
name = "goose_providers"
version = "0.1.0"
edition = "2021"
publish = false

[dependencies]
serde_json = "1"
tokio = { version = "1", features = ["sync", "time", "rt", "macros"] }
anyhow = "1"
async-trait = "0.1"
futures = "0.3"
rmcp = "*"
