[package]
name = "sotto"
version = "0.1.0"
edition = "2021"
publish = false

[dependencies]
anyhow = "=1.0.104"
chrono = "=0.4.45"
dirs = "6"
serde = { version = "=1.0.229", features = ["derive"] }
serde_json = "=1.0.154"
tauri = { version = "2", default-features = false, features = ["wry", "dynamic-acl"] }
tokio = { version = "=1.54.1", features = ["sync", "time", "rt"] }
