[package]
name = "dt_core"
version = "0.1.0"
edition = "2021"
publish = false

[dependencies]
serde_json = "1"
base64 = "0.21"
chrono = "0.4"
percent-encoding = "2"
anyhow = "1"
redis = "0.23"
url = "2"
reqwest = { version = "0.11", default-features = false, features = ["blocking"] }
