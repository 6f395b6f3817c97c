[package]
name = "rengarde"
version = "0.1.0"
edition = "2021"
publish = false

[dependencies]
dashmap = "*"
tokio = { version = "*", features = ["rt-multi-thread", "macros", "net", "signal", "time", "sync"] }
tokio-util = "*"
network-interface = "*"
serde = { version = "*", features = ["derive"] }
serde_yaml = "*"
anyhow = "*"
