[package]
name = "reqs"
version = "0.1.0"
edition = "2021"
publish = false

[dependencies]
anyhow = "*"
async-trait = "*"
clap = { version = "*", features = ["derive"] }
colored = "*"
futures = "*"
rand = "*"
regex = "*"
reqwest = "*"
rust-mcp-sdk = "*"
scraper = "*"
serde_json = "*"
tokio = { version = "*", features = ["full"] }
