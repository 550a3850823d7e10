[package]
name = "telemetry_core"
version = "0.1.0"
edition = "2021"
publish = false

[dependencies]
anyhow = "=1.0.104"
crossbeam-channel = "=0.5.17"
futures-util = "=0.3.34"
parking_lot = "=0.12.5"
rand = "=0.10.3"
serde = { version = "=1.0.229", features = ["derive"] }
serde_json = "=1.0.151"
sysinfo = "=0.39.6"
tokio = { version = "=1.53.2", features = ["rt-multi-thread", "time", "sync", "net", "macros"] }
tokio-tungstenite = "=0.30.0"
