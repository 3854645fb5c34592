[package]
name = "certaro"
version = "0.1.0"
edition = "2021"
publish = false

[dependencies]
anyhow = "=1.0.104"
chrono = "=0.4.45"
uuid = "=1.29.1"
serde_json = "=1.0.154"
