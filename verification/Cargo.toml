[package]
name = "rust_pubsub"
version = "0.1.0"
edition = "2021"
publish = false

[dependencies]
crossbeam-channel = "0.5"
uuid = { version = "1", features = ["v4"] }
lazy_static = "1"
