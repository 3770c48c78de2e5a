[package]
name = "hyper_serde"
version = "0.1.0"
edition = "2021"
publish = false

[dependencies]
cookie = "*"
headers = "*"
hyper = "*"
mime = "*"
serde = "*"
serde_bytes = "*"

[dev-dependencies]
time = "*"
