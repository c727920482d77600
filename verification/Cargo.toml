[package]
name = "wikipedia"
version = "0.4.0"
edition = "2021"
publish = false

[dependencies]
serde_json = "1"
url = "2"
reqwest = { version = "0.12", default-features = false, features = ["blocking"] }
futures = "0.3"
failure = "0.1"
