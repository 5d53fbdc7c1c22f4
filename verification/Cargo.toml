[package]
name = "resource_urls"
version = "0.1.0"
edition = "2021"
publish = false

[dependencies]
anyhow = "1"
reqwest = "0.12"
scraper = "*"
tokio = { version = "1", features = ["rt-multi-thread", "fs", "io-util"] }
url = "2"
