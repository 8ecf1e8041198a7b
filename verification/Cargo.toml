[package]
name = "easyhg"
version = "0.1.0"
edition = "2021"
publish = false

[dependencies]
serde_json = "1"
serde = { version = "1", features = ["derive"] }
anyhow = "1"
tokio = { version = "1", features = ["macros", "rt-multi-thread", "process", "sync", "time", "io-util"] }
async-trait = "*"
futures-util = "*"
crossterm = { version = "*", features = ["event-stream"] }
ratatui = "*"
chrono = "*"
dirs = "*"
toml = "*"
