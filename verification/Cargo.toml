[package]
name = "show_scrape"
version = "0.1.0"
edition = "2021"
publish = false

[dependencies]
chrono = "=0.4.45"
chrono-tz = "=0.10.4"
scraper = "=0.27.0"
sha2 = "=0.11.0"
serde = { version = "=1.0.229", features = ["derive"] }
serde_json = "=1.0.151"
reqwest = { version = "=0.13.5", default-features = false, features = ["blocking", "json", "form"] }
rusqlite = { version = "=0.40.2", features = ["bundled"] }
dirs = "=7.0.0"
