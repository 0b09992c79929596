[package]
name = "spider_node"
version = "0.1.0"
edition = "2021"
publish = false

[dependencies]
compact_str = "=0.8.2"
indexmap = "=2.14.2"
napi = { version = "=2.16.17", features = ["napi4", "async", "serde-json", "tokio_fs", "tokio_io_util"] }
napi-derive = "=2.16.13"
serde_json = "=1.0.154"
spider = { version = "=1.99.37", features = ["cron", "regex"] }
