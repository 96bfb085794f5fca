[package]
name = "live_scraper"
version = "0.1.0"
edition = "2021"
publish = false

[dependencies]
eyre = "0.6"
serde_json = "1"
polars = { version = "0.32", features = ["lazy", "is_in"] }
