[package]
name = "jsonrpc_engine"
version = "0.1.0"
edition = "2021"
publish = false

[dependencies]
futures = "=0.1.31"
hyper = { version = "=1.12.0", default-features = false }
mime = "0.3"
serde_json = "=1.0.154"
