[package]
name = "zagent"
version = "0.1.0"
edition = "2021"
publish = false

[dependencies]
anyhow = "=1.0.104"
compact_str = { version = "=0.10.0", features = ["serde"] }
rig-core = "=0.32.0"
serde = { version = "=1.0.229", features = ["derive"] }
serde_json = "=1.0.154"
thiserror = "=2.0.21"
tokio = { version = "=1.54.1", features = ["sync", "rt", "macros", "time", "process", "fs"] }
tracing = "=0.1.44"
