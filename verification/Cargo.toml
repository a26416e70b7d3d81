[package]
name = "prometheus_http_query"
version = "0.1.0"
edition = "2021"
publish = false

[dependencies]
serde_json = "1"
reqwest = { version = "0.12", default-features = false, features = ["json"] }
url = "2"
async-trait = "0.1"
