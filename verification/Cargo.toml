[package]
name = "omega"
version = "0.1.0"
edition = "2021"
publish = false

[dependencies]
x448 = "=0.6.0"
base64 = "=0.22.1"
rand = "=0.8.8"
aes-gcm = "=0.10.3"
hkdf = "=0.12.4"
sha2 = "=0.10.9"
sha1 = "=0.10.7"
uuid = { version = "=1.27.0", features = ["v4"] }
json = "=0.12.4"
tungstenite = "=0.30.0"
