[package]
name = "udp-over-tcp"
version = "0.1.0"
edition = "2021"
publish = false

[dependencies]
bimap = "0.6"
bincode = "2"
bytes = "1"
elsa = "1"
eyre = "0.6"
lexopt = "0.3"
tokio = { version = "1", features = ["io-util", "macros", "net", "rt", "time"] }
tracing = "0.1"
tracing-subscriber = { version = "0.3", features = ["env-filter"] }
