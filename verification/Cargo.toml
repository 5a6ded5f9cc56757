[package]
name = "sure"
version = "0.1.0"
edition = "2021"
publish = false

[dependencies]
base64 = "0.13"
dirs = "3"
futures = "0.3"
log = "0.4"
regex = "1"
reqwest = "0.11"
scraper = "*"
serde = { version = "1", features = ["derive"] }
serde_json = "1"
simplelog = "0.9"
tokio = { version = "1", features = ["macros", "rt-multi-thread"] }
