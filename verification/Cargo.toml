[package]
name = "telisq"
version = "0.1.0"
edition = "2021"
publish = false

[dependencies]
regex = "=1.13.1"
petgraph = "=0.6.5"
serde_json = "=1.0.154"
serde = { version = "=1.0.229", features = ["derive"] }
tempfile = "=3.27.0"
home = "=0.5.12"
uuid = { version = "=1.29.0", features = ["v4"] }
tokio = { version = "1", features = ["rt-multi-thread", "macros", "time", "process", "sync", "fs"] }
reqwest = { version = "0.12", default-features = false, features = ["json", "rustls-tls"] }
sqlx = { version = "0.8", default-features = false, features = ["sqlite", "runtime-tokio"] }
ratatui = "0.29"
crossterm = "0.28"
serde_yaml = "0.9"
toml = "0.8"
walkdir = "2"
dirs = "5"
notify = "6"
anyhow = "1"
