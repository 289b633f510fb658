[package]
name = "drone"
version = "0.1.0"
edition = "2021"
publish = false

[dependencies]
clap = { version = "4", features = ["derive"] }
hostname = "*"
linemux = "*"
phoenix_channels_client = "*"
serde_json = "1"
tokio = { version = "1", features = ["full"] }
url = "2"
