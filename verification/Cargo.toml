[package]
name = "alex_fetcher"
version = "0.1.0"
edition = "2021"
publish = false

[dependencies]
chrono = { version = "0.4", features = ["serde"] }
futures = "0.3"
pin-project-lite = "0.2"
rand = "0.8"
reqwest = "0.11"
rusqlite = { version = "0.29", features = ["chrono"] }
scraper = "*"
serde = { version = "1", features = ["derive"] }
serde_json = "1"
structopt = "0.3"
thiserror = "1"
tokio = { version = "1", features = ["full"] }
