[package]
name = "baml_engine"
version = "0.1.0"
edition = "2021"
publish = false

[dependencies]
anyhow = "=1.0.104"
axum = "=0.8.9"
axum-streams = { version = "=0.30.0", features = ["json"] }
clap = { version = "=4.6.7", features = ["derive"] }
colored = "=2.2.0"
env_logger = "=0.11.11"
eventsource-stream = "=0.2.3"
futures = "=0.3.34"
indexmap = { version = "=2.14.2", features = ["serde"] }
log = "=0.4.35"
reqwest = { version = "=0.12.28", default-features = false, features = ["json", "stream"] }
serde = { version = "=1.0.229", features = ["derive"] }
serde_json = "=1.0.154"
serde_yaml = "=0.9.34"
tokio = { version = "=1.54.1", features = ["rt-multi-thread", "macros", "net", "sync", "time"] }
tokio-stream = "=0.1.19"
web-time = "=1.1.0"
