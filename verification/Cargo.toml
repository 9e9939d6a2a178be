[package]
name = "oparl_cache"
version = "0.1.0"
edition = "2021"
publish = false

[dependencies]
url = "2"
json = "0.12"
serde_json = "1"
chrono = "0.4"
crossbeam = "0.8"
clap = "4"
reqwest = { version = "0.12", default-features = false, features = ["blocking", "rustls-tls"] }
