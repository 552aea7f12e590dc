[package]
name = "observatory"
version = "0.1.0"
edition = "2021"
publish = false

[dependencies]
futures = "*"
hostname = "*"
tendermint = "*"
tendermint-rpc = { version = "*", features = ["http-client"] }
tokio = { version = "*", features = ["full"] }
tower = { version = "*", features = ["buffer", "util"] }
tracing = "*"
tracing-subscriber = "*"
