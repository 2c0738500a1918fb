[package]
name = "yarisugi"
version = "0.1.0"
edition = "2021"
publish = false

[dependencies]
anyhow = "=1.0.104"
arc-swap = "=1.9.3"
base64 = "=0.22.1"
bincode = "=1.3.3"
crossbeam-queue = "=0.3.14"
futures-util = { version = "=0.3.34", features = ["sink"] }
ipnet = "=2.12.2"
libc = "=0.2.191"
percent-encoding = "=2.3.2"
rusqlite = { version = "=0.41.1", features = ["bundled"] }
rustls = { version = "=0.23.46", default-features = false, features = ["std", "ring", "tls12", "logging"] }
serde = { version = "=1.0.229", features = ["derive", "rc"] }
serde_json = "=1.0.154"
serde_yaml = "=0.9.34"
sha2 = "=0.10.9"
simd-json = "=0.19.0"
tokio = { version = "=1.54.1", features = ["full"] }
tokio-util = { version = "=0.7.20", features = ["codec"] }
tracing = "=0.1.44"
tracing-subscriber = { version = "=0.3.23", features = ["env-filter"] }
url = "=2.5.8"
uuid = { version = "=1.29.0", features = ["v4", "serde"] }
webpki-roots = "=1.0.10"
