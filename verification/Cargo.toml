[package]
name = "libcudf-rs"
version = "0.1.0"
edition = "2021"
publish = false

[dependencies]
arrow-schema = "*"
tokio = { version = "1", features = ["rt", "sync", "time"] }
