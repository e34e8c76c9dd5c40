[package]
name = "hexplorer"
version = "0.1.3"
edition = "2021"
publish = false

[dependencies]
anyhow = "1"
chrono = "0.4"
crossterm = "0.28"
dirs = "5"
log = "0.4"
open = "5"
ratatui = "0.29"
reqwest = { version = "0.12", default-features = false, features = ["rustls-tls"] }
serde = { version = "1", features = ["derive"] }
serde_json = "1"
simplelog = "0.12"
sysinfo = "0.29"
tokio = { version = "1", features = ["rt-multi-thread", "macros", "sync", "time"] }
