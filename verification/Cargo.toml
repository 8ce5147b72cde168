[package]
name = "flame"
version = "0.1.0"
edition = "2021"
publish = false

[dependencies]
uuid = { version = "=1.29.0", features = ["v4"] }
rand = "=0.9.5"
chrono = "=0.4.45"
url = "=2.5.8"
base64 = "=0.22.1"
regex = "=1.13.1"
serde = { version = "=1.0.229", features = ["derive"] }
serde_yaml = "=0.9.34"
serde_json = "=1.0.154"
users = "=0.11.0"
network-interface = "=2.0.5"

[dev-dependencies]
bincode = "=2.0.1"
