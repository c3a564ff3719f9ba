[package]
name = "azure_vars"
version = "0.1.0"
edition = "2021"
publish = false

[dependencies]
fuzzy-matcher = "=0.3.7"
anyhow = "*"
arboard = { version = "=3.6.1", default-features = false }
async-trait = "*"
azure_devops_rust_api = { version = "=0.39.1", default-features = false, features = ["distributed_task"] }
azure_identity = { version = "=1.0.0", default-features = false }
clap = { version = "*", features = ["derive"] }
crossterm = { version = "=0.29.0", features = ["event-stream"] }
dialoguer = { version = "*", default-features = false }
dirs = "*"
futures = "*"
log = "*"
ratatui = "=0.30.2"
serde = { version = "*", features = ["derive"] }
serde_json = "*"
serde_yaml = "*"
tokio = { version = "=1.53.2", features = ["rt-multi-thread", "macros", "sync", "time"] }
