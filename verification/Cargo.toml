[package]
name = "weak_peer"
version = "0.1.0"
edition = "2021"
publish = false

[dependencies]
anyhow = "1"
async-trait = "0.1"
bytes = "1"
md5 = "0.7"
notify = "6"
serde = { version = "1", features = ["derive"] }
tokio = { version = "1", features = ["fs", "io-util", "net", "rt", "rt-multi-thread", "sync"] }
tracing = "0.1"
