[package]
name = "rustlab"
version = "0.1.0"
edition = "2021"
publish = false

[dependencies]
regex = "=1.13.1"
async-channel = "=1.9.0"
futures = "=0.3.34"
scoped-tls = "=1.0.1"
axum = "0.6"
tokio = { version = "1", features = ["full"] }
serde = { version = "1", features = ["derive"] }
