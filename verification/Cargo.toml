[package]
name = "jaeb"
version = "0.5.0"
edition = "2021"
publish = false

[dependencies]
tokio = { version = "1", features = ["rt", "rt-multi-thread", "sync", "time", "macros"] }
arc-swap = "1"
futures-util = "0.3"
tracing = "0.1"
