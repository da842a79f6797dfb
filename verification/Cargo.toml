[package]
name = "yapi"
version = "0.1.0"
edition = "2021"
publish = false

[dependencies]
anyhow = "=1.0.104"
chrono = { version = "=0.4.45", features = ["serde"] }
clap = { version = "=4.6.7", features = ["derive"] }
inquire = "=0.7.5"
regex = "=1.13.1"
reqwest = { version = "=0.12.28", default-features = false, features = ["rustls-tls"] }
rusqlite = { version = "=0.32.1", features = ["bundled", "chrono"] }
serde = { version = "=1.0.229", features = ["derive"] }
serde_json = "=1.0.154"
tokio = { version = "=1.54.1", features = ["rt-multi-thread"] }
toml = "=0.8.23"
url = "=2.5.8"

[dev-dependencies]
tempfile = "=3.27.0"
