[package]
name = "plant_minder"
version = "0.1.0"
edition = "2021"
publish = false

[dependencies]
coap-lite = "=0.13.3"
ipnet = "=2.12.2"
tokio = { version = "=1.54.1", features = ["rt-multi-thread", "macros", "net", "sync", "time", "process"] }
log = "=0.4.34"
env_logger = "=0.11.11"
serde = { version = "=1.0.229", features = ["derive"] }
serde_json = "=1.0.154"
chrono = "=0.4.45"
thiserror = "=1.0.69"
