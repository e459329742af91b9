[package]
name = "meteoroid"
version = "0.1.0"
edition = "2021"
publish = false

[dependencies]
anyhow = "*"
cargo_toml = "=1.0.1"
clap = { version = "*", features = ["derive"] }
csv = "=1.4.0"
dashmap = "=6.2.1"
flate2 = "*"
futures = "*"
reqwest = { version = "*", default-features = false, features = ["rustls-tls", "stream"] }
serde = { version = "*", features = ["derive"] }
serde_json = "*"
strsim = "*"
tar = "*"
tempfile = "*"
tokio = { version = "*", features = ["full"] }
tracing = "*"
tracing-subscriber = "*"
url = "=2.5.8"
