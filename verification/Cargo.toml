[package]
name = "lcsc-scrape"
version = "0.1.0"
edition = "2021"
publish = false

[dependencies]
regex = "1"
scraper = "0.17"
linked_hash_set = "0.1"
serde = { version = "1", features = ["derive"] }
serde_json = "1"
rusqlite = { version = "0.24", features = ["bundled"] }
reqwest = { version = "0.11", default-features = false, features = ["blocking", "rustls-tls"] }
calamine = "0.22"
clap = "2"
env_logger = "0.9"
log = "0.4"
