[package]
name = "appmgr"
version = "0.1.0"
edition = "2021"
publish = false

[dependencies]
anyhow = "1"
base64 = "0.13"
clap = "2"
emver = "*"
futures = "0.3"
hashlink = "0.6"
hyper = { version = "0.14", features = ["server", "http1", "tcp"] }
linear-map = "1.2"
percent-encoding = "2"
rand = "0.7"
regex = "1"
reqwest = { version = "0.11", default-features = false }
serde = { version = "1", features = ["derive"] }
serde_cbor = "0.11"
serde_json = "1"
serde_qs = "0.8"
serde_yaml = "0.8"
tokio = { version = "1", features = ["fs", "io-util", "io-std", "rt-multi-thread", "macros"] }
tokio-tar = "*"
