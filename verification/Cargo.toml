[package]
name = "strivo_plugins"
version = "0.1.0"
edition = "2021"
publish = false

[dependencies]
anyhow = "1"
async-trait = "0.1"
base64 = "0.22"
crossterm = "0.28"
ratatui = "0.29"
reqwest = { version = "0.12", default-features = false, features = ["json", "rustls-tls"] }
rusqlite = { version = "0.32", features = ["bundled"] }
rust-stemmers = "1.2"
serde_json = "1"
tokio = { version = "1", features = ["rt", "rt-multi-thread", "macros", "process", "fs", "time"] }
tracing = "0.1"
uuid = { version = "1", features = ["v4"] }
