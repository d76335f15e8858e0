[package]
name = "boomerang"
version = "0.1.0"
edition = "2021"
publish = false

[dependencies]
uuid = { version = "=1.29.0", features = ["v4"] }
chrono = { version = "=0.4.45", default-features = false, features = ["clock", "std"] }
regex = "=1.13.1"
grep-regex = "=0.1.14"
grep-searcher = "=0.1.17"
grep-matcher = "=0.1.9"
serde = { version = "=1.0.229", features = ["derive"] }
serde_json = "=1.0.154"
tokio = { version = "=1.54.1", features = ["fs", "macros", "rt-multi-thread", "sync", "time"] }
reqwest = { version = "=0.12.28", default-features = false, features = ["json", "rustls-tls"] }
anyhow = "=1.0.104"
tracing = "=0.1.44"
tracing-subscriber = "=0.3.23"
async-trait = "=0.1.92"
futures = "=0.3.34"
jsonwebtoken = "=9.3.1"
axum = "=0.7.9"
tower-http = { version = "=0.6.11", features = ["cors"] }
http = "=1.5.0"
dirs = "=5.0.1"
clap = { version = "=4.6.7", features = ["derive"] }
config = { version = "=0.14.1", default-features = false, features = ["toml"] }
tokio-cron-scheduler = "=0.15.1"
