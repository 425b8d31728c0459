[package]
name = "centralized_network"
version = "0.1.0"
edition = "2021"
publish = false

[dependencies]
async-lock = "2"
async-trait = "0.1"
bincode = "1.3"
custom_debug = "0.5"
derive_builder = "0.12"
flume = "0.10"
futures = "0.3"
libp2p = { version = "0.57", default-features = false }
serde = { version = "1", features = ["derive"] }
snafu = "0.7"
tokio = { version = "1", features = ["net", "rt", "time", "io-util"] }
tracing = "0.1"
