[package]
name = "opensea_stream"
version = "0.1.0"
edition = "2021"
publish = false

[dependencies]
tokio = { version = "*", features = ["rt", "sync", "time"] }
tokio-tungstenite = "*"
futures-util = "*"
url = "*"
