[package]
name = "svc_nats_client"
version = "0.1.0"
edition = "2021"
publish = false

[dependencies]
svc-agent = "*"
async-nats = "*"
async-trait = "*"
tokio = { version = "*", features = ["macros", "rt-multi-thread", "sync", "time"] }
futures = "*"
futures-util = "*"
serde = { version = "*", features = ["derive"] }
anyhow = "*"
thiserror = "*"
tracing = "*"
svc-error = "*"
humantime-serde = "*"
