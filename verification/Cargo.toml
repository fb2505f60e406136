[package]
name = "authcore"
version = "0.1.0"
edition = "2021"
publish = false

[dependencies]
aes-gcm = "=0.11.1"
sha2 = "=0.11.0"
base64 = "=0.23.1"
hex = "=0.4.3"
jsonwebtoken = { version = "=11.1.0", features = ["rust_crypto"] }
serde_json = "=1.0.151"
dotenvy = "=0.15.7"
