[package]
name = "uploadr"
version = "0.1.0"
edition = "2021"
publish = false

[dependencies]
arboard = "=3.7.0"
atty = "=0.2.14"
chrono = "=0.4.45"
clap = { version = "=4.6.7", features = ["derive"] }
csv = "=1.4.0"
curl = "=0.4.51"
env_logger = "=0.11.11"
image = { version = "=0.24.9", default-features = false, features = ["png"] }
infer = "=0.22.0"
notify-rust = "=4.18.2"
rand = "=0.8.8"
regex = "=1.13.1"
serde = { version = "=1.0.229", features = ["derive"] }
serde_json = "=1.0.154"
serde_json_path = "=0.7.2"
serde-xml-rs = "0.6"
uuid = { version = "=1.29.0", features = ["v4"] }
webbrowser = "=1.2.5"
