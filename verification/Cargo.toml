[package]
name = "rusty_rivens"
version = "0.1.0"
edition = "2021"
publish = false

[dependencies]
serde_json = "1"
tokio = { version = "1", features = ["rt-multi-thread", "net", "io-util", "sync", "time", "macros"] }
tokio-rustls = { version = "*", default-features = false, features = ["ring", "tls12", "logging"] }
webpki-roots = "*"

[dev-dependencies]
httparse = "1"
