[package]
name = "bukurs"
version = "0.1.0"
edition = "2021"
publish = false

[dependencies]
base64 = "0.22"
chrono = "0.4"
clap = { version = "4", features = ["derive"] }
env_logger = "0.11"
log = "0.4"
owo-colors = "4"
qrcode = { version = "0.14", default-features = false }
regex = "1"
reqwest = { version = "0.12", default-features = false, features = ["blocking"] }
ring = "0.17"
serde = { version = "1", features = ["derive"] }
serde_json = "1"
tempfile = "3"
thiserror = "2"
