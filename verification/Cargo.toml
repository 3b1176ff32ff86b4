[package]
name = "data_exchange"
version = "0.1.0"
edition = "2021"
publish = false

[dependencies]
async-channel = "1"
chrono = { version = "0.4", default-features = false, features = ["std"] }
chrono-tz = "0.6"
futures = "0.3"
serde_json = "1"
