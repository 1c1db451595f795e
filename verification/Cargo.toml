[package]
name = "llm_client"
version = "0.1.0"
edition = "2021"
publish = false

[dependencies]
async-trait = "*"
futures = "*"
reqwest = { version = "*", default-features = false, features = ["json", "stream"] }
serde_json = "*"
tokio-stream = "*"
