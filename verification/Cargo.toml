[package]
name = "catan"
version = "0.1.0"
edition = "2021"
publish = false

[dependencies]
uuid = { version = "*", features = ["v1", "v5"] }
rand = "*"
glob = "*"
redis-async = "*"
tokio = { version = "*", features = ["rt", "macros"] }
futures = "*"
