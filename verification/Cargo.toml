[package]
name = "syzygy"
version = "0.1.0"
edition = "2021"
publish = false

[dependencies]
crossbeam-channel = "*"
tokio = { version = "*", features = ["sync", "rt-multi-thread"] }
