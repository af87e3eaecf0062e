[package]
name = "ralph_robot"
version = "0.1.0"
edition = "2021"
publish = false

[dependencies]
agent-client-protocol = "0.9"
anyhow = "1"
async-trait = "0.1"
chrono = "0.4"
nix = { version = "0.30", features = ["signal"] }
serde_json = "1"
tokio = { version = "1", features = ["io-util", "macros", "process", "rt", "sync", "time"] }
tokio-util = { version = "0.7", features = ["compat"] }
tracing = "0.1"
