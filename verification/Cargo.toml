[package]
name = "tiktok_json_analyzer"
version = "0.1.0"
edition = "2021"
publish = false

[dependencies]
chrono = { version = "0.4", default-features = false, features = ["std"] }
serde_json = "1"
textplots = { version = "*", default-features = false }
