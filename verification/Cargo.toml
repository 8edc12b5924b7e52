[package]
name = "infinirust"
version = "0.1.0"
edition = "2021"
publish = false

[dependencies]
anyhow = "1"
noise = "*"
serde = { version = "1", features = ["derive"] }
serde_json = "1"
tokio = { version = "1", features = ["rt-multi-thread", "net", "io-util", "sync", "signal", "macros"] }
