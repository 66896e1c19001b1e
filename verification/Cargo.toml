[package]
name = "product_scraper"
version = "0.1.0"
edition = "2021"
publish = false

[dependencies]
regex = "=1.13.1"
scraper = "=0.29.0"
serde_json = "=1.0.154"
url = "=2.5.8"
urlencoding = "=2.1.3"
serde = { version = "=1.0.229", features = ["derive"] }
tokio = { version = "=1.54.1", features = ["rt-multi-thread", "time", "sync", "macros"] }
wreq = "=0.15.3"
wreq-util = "=0.1.0"
pyo3 = "=0.22.6"
