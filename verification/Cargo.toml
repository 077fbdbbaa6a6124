[package]
name = "scylla_core"
version = "0.1.0"
edition = "2021"
publish = false

[dependencies]
futures = "0.3"
tokio = { version = "1", features = ["time"] }
tracing = "0.1"

[dev-dependencies]
bytes = "1"
