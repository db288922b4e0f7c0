[package]
name = "greeting_core"
version = "0.1.0"
edition = "2021"
publish = false

[dependencies]
dashmap = "=6.2.1"
foldhash = "=0.2.0"
cidr = { version = "=0.3.2", features = ["serde"] }
ammonia = "=4.2.4"
anyhow = "=1.0.104"
axum = "=0.8.9"
bytes = "=1.12.1"
chrono = { version = "=0.4.45", features = ["serde"] }
chrono-tz = "=0.10.4"
clap = { version = "=4.6.7", features = ["derive"] }
deadpool-sqlite = "=0.14.0"
fluent-uri = "=0.3.2"
parking_lot = "=0.12.5"
reqwest = { version = "=0.12.28", default-features = false, features = ["json", "rustls-tls"] }
serde = { version = "=1.0.229", features = ["derive", "rc"] }
serde_json = "=1.0.154"
thiserror = "=2.0.21"
tokio = { version = "=1.54.1", features = ["rt-multi-thread", "macros", "net", "signal", "sync", "time"] }
tower-http = { version = "=0.6.11", features = ["compression-gzip"] }
tracing = "=0.1.44"
tracing-subscriber = { version = "=0.3.23", features = ["env-filter"] }
macro-toolset = { version = "=0.8.4", default-features = false }
