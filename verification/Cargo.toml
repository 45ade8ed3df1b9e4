[package]
name = "blackbird"
version = "0.1.0"
edition = "2021"
publish = false

[dependencies]
serde_json = "=1.0.154"
serde = { version = "=1.0.229", features = ["derive"] }
reqwest = { version = "=0.12.28", default-features = false, features = ["json", "stream"] }
tokio = { version = "=1.54.1", features = ["rt", "rt-multi-thread", "macros", "sync", "time"] }
futures-util = "=0.3.34"
dotenvy = "=0.15.7"
dirs = "=7.0.0"
fasteval = "=0.2.4"
rig-core = "=0.31.0"
