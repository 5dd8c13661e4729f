[package]
name = "portfolio_manager"
version = "0.1.0"
edition = "2021"
publish = false

[dependencies]
rust_decimal = { version = "1", features = ["serde", "macros"] }
chrono = { version = "0.4", features = ["serde"] }
dashmap = "6"
serde = { version = "1", features = ["derive"] }
serde_json = "1"
thiserror = "2"
ratatui = "*"
crossterm = "*"
clap = { version = "4", features = ["derive"] }
tokio = { version = "1", features = ["macros", "rt-multi-thread", "fs", "sync", "time"] }
tracing = "0.1"
tracing-subscriber = "0.3"
anyhow = "1"
ibapi = "*"
