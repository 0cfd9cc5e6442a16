[package]
name = "signal_serve"
version = "0.1.0"
edition = "2021"
publish = false

[dependencies]
anyhow = "1"
async-stream = "0.3"
axum = { version = "=0.8.9", features = ["ws"] }
base64 = "=0.22.1"
clap = { version = "4", features = ["derive"] }
futures = "0.3"
serde_json = "=1.0.154"
tokio = { version = "1", features = ["full"] }
tracing = "0.1"
tracing-subscriber = { version = "0.3", features = ["env-filter"] }
uuid = "=1.29.0"
