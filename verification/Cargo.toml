[package]
name = "http_client"
version = "0.1.0"
edition = "2021"
publish = false

[dependencies]
url = "2"
serde_json = "1"
dns-lookup = "*"
