[package]
name = "gen_data"
version = "0.1.0"
edition = "2021"
publish = false

[dependencies]
scraper = "=0.17.1"
reqwest = { version = "=0.11.27", features = ["blocking"] }
serde = { version = "=1.0.229", features = ["derive"] }
serde_json = "=1.0.154"
clap = { version = "=4.6.7", features = ["derive"] }
env_logger = "=0.10.2"
chrono = "=0.4.45"
log = "=0.4.34"
indicatif = "=0.18.6"
indicatif-log-bridge = "=0.2.3"
