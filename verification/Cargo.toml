[package]
name = "caching_proxy"
version = "0.1.0"
edition = "2021"
publish = false

[dependencies]
hyper = { version = "*", features = ["full"] }
hyper-util = { version = "*", features = ["full"] }
http-body-util = "*"
tokio = { version = "*", features = ["full"] }
