[package]
name = "hotspot_core"
version = "0.1.0"
edition = "2021"
publish = false

[dependencies]
dirs = "*"
tokio = { version = "*", features = ["rt", "time"] }

[dev-dependencies]
serde_json = "*"
