[package]
name = "kaito"
version = "0.1.0"
edition = "2021"
publish = false

[dependencies]
url = "=2.5.8"
lru = "=0.7.8"
regex = "=1.13.1"
anyhow = "1"
crossbeam = "0.8"
tokio = { version = "1", features = ["full"] }
hyper = { version = "0.14", features = ["client", "http1", "http2", "tcp", "stream"] }
hyper-tls = "0.5"
governor = "0.6"
futures = "0.3"
mlua = { version = "0.8", features = ["lua54", "vendored", "serialize", "send"] }
serde = { version = "1", features = ["derive"] }
toml = "0.5"
glob = "0.3"
rand = "0.8"
