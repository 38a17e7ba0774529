[package]
name = "nitox"
version = "0.1.0"
edition = "2021"
publish = false

[dependencies]
bytes = "0.4"
rand = "0.5"
url = "1.7"
futures = "0.1"
tokio-executor = "0.1"
