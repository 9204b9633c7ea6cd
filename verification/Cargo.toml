[package]
name = "dbgif-protocol"
version = "0.1.0"
edition = "2021"
publish = false

[dependencies]
crc32fast = "1"
bytes = "1"
anyhow = "1"
async-trait = "0.1"
clap = { version = "4", features = ["derive"] }
serde = { version = "1", features = ["derive"] }
thiserror = "1"
tokio = { version = "1", features = ["full"] }
toml = "0.8"
tracing = "0.1"
tracing-subscriber = { version = "0.3", features = ["env-filter"] }
rusb = "0.9"
