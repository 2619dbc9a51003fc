[package]
name = "fuelscan"
version = "0.1.0"
edition = "2021"
publish = false

[dependencies]
hex = "0.4"
flume = "0.11"
serde = { version = "1", features = ["derive"] }
serde_json = "1"
tokio = { version = "1", features = ["rt-multi-thread", "macros", "sync", "time", "signal"] }
