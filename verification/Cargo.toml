[package]
name = "chizu"
version = "0.1.0"
edition = "2021"
publish = false

[dependencies]
blake3 = "=1.8.7"
serde = { version = "=1.0.229", features = ["derive"] }
serde_json = "=1.0.154"
toml = "=1.1.8"
rusqlite = "=0.41.1"
argh = "=0.1.19"
thiserror = "=2.0.21"
tracing = "=0.1.44"
tracing-subscriber = "=0.3.23"
petgraph = "=0.8.3"
reqwest = { version = "=0.13.5", default-features = false, features = ["blocking", "json"] }
notify = "8"
