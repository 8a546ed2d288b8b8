[package]
name = "beacon"
version = "0.1.0"
edition = "2021"
publish = false

[dependencies]
anyhow = "1"
chrono = "0.4"
clap = { version = "4", features = ["derive"] }
colored = "2"
cpal = "0.15"
env_logger = "0.11"
hound = "3.5"
indicatif = "0.17"
log = "0.4"
ndarray = "0.16"
ort = { version = "=2.0.0-rc.10", default-features = false, features = ["std", "ndarray", "load-dynamic"] }
rusqlite = { version = "0.31", features = ["bundled"] }
rustfft = "6"
serde = { version = "1", features = ["derive"] }
serde_json = "1"
tokio = { version = "1", features = ["full"] }
xxhash-rust = { version = "0.8", features = ["xxh3"] }
