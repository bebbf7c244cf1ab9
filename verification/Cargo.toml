[package]
name = "novelter"
version = "0.1.0"
edition = "2021"
publish = false

[dependencies]
crc32fast = "*"
fake = "*"
futures = "*"
rand = "0.9"
reqwest = { version = "0.12", default-features = false }
scraper = "*"
serde = { version = "1", features = ["derive"] }
serde_json = "1"
serde_yaml = "*"
tokio = { version = "1", features = ["rt-multi-thread", "macros", "time"] }
zstd = "*"
