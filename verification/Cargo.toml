[package]
name = "wgzimmer"
version = "0.1.0"
edition = "2021"
publish = false

[dependencies]
chrono = "0.4"
csv = "1"
dotenv = "0.15"
futures = "0.3"
rand = "0.9"
scraper = "*"
serde_json = "1"
thirtyfour = "*"
tokio = { version = "1", features = ["macros", "rt-multi-thread", "signal", "time"] }
