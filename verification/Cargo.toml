[package]
name = "channels"
version = "0.1.0"
edition = "2021"
publish = false

[dependencies]
anyhow = "=1.0.104"
chrono = "=0.4.45"
futures = "=0.3.34"
rand = "0.8"
serde_json = "=1.0.154"
tokio = { version = "1", features = ["rt-multi-thread", "macros"] }
