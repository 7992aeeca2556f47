[package]
name = "collab_engine"
version = "0.1.0"
edition = "2021"
publish = false

[dependencies]
uuid = { version = "=1.29.0", features = ["v4", "serde"] }
axum = { version = "=0.6.20", features = ["ws"] }
tokio = { version = "=1.54.1", features = ["macros", "rt-multi-thread", "sync", "net", "process"] }
serde = { version = "=1.0.229", features = ["derive"] }
serde_json = "=1.0.154"
futures-util = "=0.3.34"
log = "=0.4.34"
thiserror = "=1.0.69"
tower-http = { version = "=0.4.4", features = ["cors"] }
tracing = "=0.1.44"
tracing-subscriber = "=0.3.23"
anyhow = "=1.0.104"
num_cpus = "1"
sys-info = "0.9"
