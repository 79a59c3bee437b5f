[package]
name = "nd_secure"
version = "0.1.0"
edition = "2021"
publish = false

[dependencies]
aes-gcm = "=0.10.3"
argon2 = "=0.5.3"
base64 = "=0.22.1"
data-encoding = "=2.11.1"
hkdf = "=0.12.4"
hmac = "=0.12.1"
rand = "=0.8.8"
sha1 = "=0.10.7"
sha2 = "=0.10.9"
subtle = "=2.6.1"
uuid = { version = "=1.29.0", features = ["v4"] }
zeroize = "=1.9.1"
serde = { version = "=1.0.229", features = ["derive"] }
serde_json = "=1.0.154"
thiserror = "=1.0.69"
parking_lot = "=0.12.5"
url = "2"
image = { version = "0.25", default-features = false, features = ["png", "jpeg"] }
rusqlite = { version = "*", features = ["bundled"] }
