[package]
name = "hyperhost"
version = "0.4.1"
edition = "2021"
publish = false

[dependencies]
base64 = "0.22"
sha2 = "0.10"
chrono = { version = "0.4", default-features = false, features = ["std", "clock"] }
serde = { version = "1", features = ["derive"] }
serde_json = "1"
rusqlite = { version = "0.31", features = ["bundled"] }
rcgen = { version = "0.13", default-features = false, features = ["ring", "pem"] }
clap = { version = "4", features = ["derive"] }
comfy-table = "7"
tokio = { version = "1", features = ["rt-multi-thread", "net", "time", "macros"] }
dirs = "5"
anyhow = "1"
tracing = "0.1"
tracing-subscriber = "0.3"
