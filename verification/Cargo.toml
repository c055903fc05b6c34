[package]
name = "network_engine"
version = "1.0.0"
edition = "2021"
publish = false

[dependencies]
crossbeam-channel = "=0.5.17"
dashmap = "=6.2.1"
flate2 = "=1.1.10"
native_api_1c = "=0.10.7"
reqwest = { version = "=0.12.28", features = ["native-tls"] }
serde = { version = "=1.0.229", features = ["derive"] }
serde_json = "=1.0.154"
tokio = { version = "=1.54.1", features = ["rt-multi-thread", "time", "net"] }
tokio-retry2 = { version = "=0.6.2", features = ["jitter"] }
utf16_lit = "2.0"
