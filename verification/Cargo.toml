[package]
name = "metrics_generator"
version = "0.1.0"
edition = "2021"
publish = false

[dependencies]
prometheus-client = "0.22"
rand = "0.8"
serde = { version = "1", features = ["derive"] }
serde_json = "1"
