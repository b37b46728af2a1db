[package]
name = "clock_collector"
version = "0.1.0"
edition = "2021"
publish = false

[dependencies]
anyhow = "=1.0.104"
chrono = { version = "=0.4.45", features = ["serde"] }
log = "=0.4.34"
rayon = "=1.12.0"
scraper = "=0.27.0"
serde = "=1.0.229"
serde_derive = "=1.0.229"
serde_json = "=1.0.151"
soup = "=0.5.1"
