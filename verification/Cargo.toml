[package]
name = "arcade_monitor"
version = "1.0.0"
edition = "2021"
publish = false

[dependencies]
worker = "*"
reqwest = { version = "*", default-features = false }
scraper = "*"
serde = { version = "*", features = ["derive"] }
serde_json = "*"
console_error_panic_hook = "*"
