[package]
name = "shared"
version = "0.1.0"
edition = "2021"
publish = false

[dependencies]
uuid = { version = "=1.29.0", features = ["v4", "v5"] }
serde = { version = "=1.0.229", features = ["derive"] }
serde_json = "=1.0.154"
anyhow = "=1.0.104"
tokio = { version = "=1.54.1", features = ["full"] }
tokio-util = { version = "=0.7.20", features = ["codec", "io"] }
tracing = "=0.1.44"
async-trait = "=0.1.92"
futures = "=0.3.34"
chrono = "=0.4.45"
reqwest = "=0.13.5"
bollard = "=0.21.1"
vaultrs = "=0.8.0"
rig-core = "=0.36.0"
rkyv = "=0.8.18"
