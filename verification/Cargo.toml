[package]
name = "axon"
version = "0.1.0"
edition = "2021"
publish = false

[dependencies]
anyhow = "=1.0.104"
async-openai = { version = "=0.43.0", features = ["chat-completion", "model"] }
crossterm = { version = "=0.28.1", features = ["event-stream"] }
futures = "=0.3.34"
ratatui = "=0.29.0"
serde_json = "=1.0.154"
similar = "=2.7.0"
syntect = { version = "=5.3.0", default-features = false, features = ["default-fancy"] }
tokio = { version = "=1.54.1", features = ["full"] }
tokio-stream = "=0.1.19"
tokio-util = "=0.7.20"
two-face = { version = "=0.4.5", default-features = false, features = ["syntect-fancy"] }
