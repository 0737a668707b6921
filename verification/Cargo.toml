[package]
name = "scrape_brilliant"
version = "0.1.0"
edition = "2021"
publish = false

[dependencies]
reqwest = { version = "0.11", default-features = false, features = ["cookies", "rustls-tls"] }
tokio = { version = "1", features = ["full"] }
serde = { version = "1", features = ["derive"] }
serde_json = "1"
actix-web = "4"
actix-files = "0.6"
scraper-main = "*"
scraper-macros = "*"
