[package]
name = "oxify"
version = "0.1.0"
edition = "2021"
publish = false

[dependencies]
sha2 = "=0.11.1"
aes-gcm = "=0.11.1"
pbkdf2 = "=0.13.0"
rand = "=0.10.3"
base64 = "=0.23.1"
chrono = "=0.4.45"
uuid = { version = "=1.29.0", features = ["v4"] }
serde = { version = "=1.0.229", features = ["derive"] }
serde_json = "=1.0.154"
thiserror = "=2.0.21"
regex = "=1.13.1"
scraper = "*"
