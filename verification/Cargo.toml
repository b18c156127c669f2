[package]
name = "comic_crawler"
version = "0.1.0"
edition = "2021"
publish = false

[dependencies]
regex = "1"
scraper = "*"
rand = "0.8"
tokio = { version = "1", features = ["full"] }
reqwest = { version = "0.12", default-features = false, features = ["json", "multipart", "rustls-tls"] }
async-channel = "2"
log = "0.4"
env_logger = "*"
serde_json = "1"
signal-hook = "0.3"
chrono = "0.4"
