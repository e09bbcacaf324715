[package]
name = "tick_bridge"
version = "0.1.0"
edition = "2021"
publish = false

[dependencies]
hyper = { version = "0.14", features = ["http1", "server", "tcp"] }
tokio = { version = "1", features = ["rt-multi-thread", "macros", "time", "sync", "net"] }
