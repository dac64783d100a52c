[package]
name = "reel"
version = "0.1.0"
edition = "2021"
publish = false

[dependencies]
serde = { version = "=1.0.229", features = ["derive"] }
serde_json = "=1.0.154"
toml = "=0.8.23"
thiserror = "=1.0.69"
anyhow = "=1.0.104"
tracing = "=0.1.44"
futures = "=0.3.34"
tokio = { version = "=1.54.1", features = ["time", "rt", "macros", "sync"] }
reqwest = { version = "=0.12.28", default-features = false, features = ["json"] }
md5 = "0.7"
dirs = "5"
async-trait = "0.1"
chrono = "0.4"
tokio-util = "0.7"
mpris-server = "*"
