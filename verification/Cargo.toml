[package]
name = "powermeal-ai-choice"
version = "0.1.0"
edition = "2021"
publish = false

[dependencies]
async-openai = "0.27"
chrono = { version = "0.4", features = ["serde"] }
dialoguer = "0.11"
eyre = "0.6"
indexmap = { version = "2", features = ["serde"] }
reqwest = "0.12"
serde = { version = "1", features = ["derive"] }
serde_json = "1"
tokio = { version = "1", features = ["full"] }
tracing = "0.1"
tracing-subscriber = { version = "0.3", features = ["env-filter"] }
