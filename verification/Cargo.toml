[package]
name = "tldr"
version = "0.1.0"
edition = "2021"
publish = false

[dependencies]
scraper = "*"
chrono = "*"
serde = { version = "*", features = ["derive"] }
reqwest = { version = "*", default-features = false }
