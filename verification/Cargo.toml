[package]
name = "wikidot"
version = "0.1.0"
edition = "2021"
publish = false

[dependencies]
reqwest = { version = "0.12", default-features = false, features = ["cookies", "json", "rustls-tls"] }
tokio = { version = "1", features = ["rt-multi-thread", "macros", "time"] }
futures = "0.3"
mongodb = "3"
scraper = "*"
serde = { version = "1", features = ["derive"] }
dotenv = "0.15"
