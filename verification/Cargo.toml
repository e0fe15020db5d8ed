[package]
name = "revivel_companion"
version = "0.1.0"
edition = "2021"
publish = false

[dependencies]
rand = "0.8"
urlencoding = "2"
zip = { version = "2", default-features = false, features = ["deflate"] }
serde = { version = "1", features = ["derive"] }
serde_json = "1"
tokio = { version = "1", features = ["process", "time", "sync", "io-util", "rt-multi-thread", "macros"] }
reqwest = { version = "0.12", default-features = false, features = ["json", "blocking", "rustls-tls"] }
thiserror = "1"
dirs = "5"
auto-launch = "0.5"
