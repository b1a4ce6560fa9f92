[package]
name = "vipune"
version = "0.1.0"
edition = "2021"
publish = false

[dependencies]
chrono = "=0.4.45"
clap = { version = "=4.6.7", features = ["derive"] }
dirs = "=5.0.1"
hf-hub = { version = "=0.4.3", default-features = false, features = ["ureq"] }
ort = { version = "=2.0.0-rc.15", default-features = false, features = ["std", "load-dynamic"] }
rusqlite = { version = "=0.32.1", features = ["bundled"] }
serde = { version = "=1.0.229", features = ["derive"] }
serde_json = "=1.0.154"
thiserror = "=1.0.69"
tokenizers = "=0.21.4"
toml = "=0.8.23"
uuid = { version = "=1.29.0", features = ["v4"] }
