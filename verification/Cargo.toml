[package]
name = "voicecode"
version = "0.1.0"
edition = "2021"
publish = false

[dependencies]
regex = "1"
anyhow = "1"
async-trait = "0.1"
serde = { version = "1", features = ["derive"] }
toml = "0.8"
tokio = { version = "1", features = ["rt-multi-thread", "macros", "sync", "time"] }
tokio-util = "0.7"
tracing = "0.1"
tracing-subscriber = { version = "0.3", default-features = false, features = ["env-filter", "fmt", "std"] }
tracing-appender = "0.2"
arboard = { version = "3", default-features = false }
hound = "3"
nnnoiseless = "0.5"
reqwest = { version = "0.12", default-features = false, features = ["rustls-tls", "multipart", "json"] }
