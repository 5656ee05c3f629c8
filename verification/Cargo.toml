[package]
name = "embypanel"
version = "0.1.0"
edition = "2021"
publish = false

[dependencies]
regex = "=1.13.1"
url = "=2.5.8"
urlencoding = "=2.1.3"
ipnet = "=2.12.2"
chrono = "=0.4.45"
rand = "=0.9.5"
sha2 = "=0.10.9"
base64 = "=0.22.1"
serde = { version = "=1.0.229", features = ["derive"] }
serde_json = "=1.0.154"
argon2 = "=0.5.3"
aes-gcm = "=0.10.3"
rsa = { version = "=0.9.10", features = ["getrandom"] }
