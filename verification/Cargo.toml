[package]
name = "sandman"
version = "0.1.0"
edition = "2021"
publish = false

[dependencies]
clap = "2"
futures = "0.3"
futures-util = "0.3"
headers = "0.3"
hyper = "0.13"
serde = { version = "1", features = ["derive"] }
serde_json = { version = "1", features = ["preserve_order"] }
tokio = { version = "0.2", features = ["full"] }
tokio-tungstenite = "0.10"
