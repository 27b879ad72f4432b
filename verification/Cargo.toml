[package]
name = "launchr"
version = "0.1.0"
edition = "2021"
publish = false

[dependencies]
nucleo-matcher = "=0.3.1"
cosmic-text = "=0.19.0"
bincode = "=2.0.1"
serde = { version = "=1.0.229", features = ["derive"] }
toml = "=1.1.7"
dirs = "=7.0.0"
walkdir = "=2.5.0"

[dev-dependencies]
serde_json = "=1.0.151"
