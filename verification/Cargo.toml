[package]
name = "proxy_core"
version = "0.1.0"
edition = "2021"
publish = false

[dependencies]
rand = { version = "0.8", features = ["small_rng"] }
serde_json = "1"
hyper = { version = "0.14", features = ["client", "http1", "tcp"] }
futures = "0.3"
