[package]
name = "riposte_social"
version = "0.1.0"
edition = "2021"
publish = false

[dependencies]
aes-gcm = "0.10"
argon2 = "0.5"
base64 = "0.22"
blake2 = "0.10"
hex = "0.4"
hmac = "0.12"
sha2 = "0.10"
rand = "*"
totp-rs = { version = "5", features = ["otpauth", "gen_secret", "qr"] }
uuid = { version = "1", features = ["v4"] }
serde = { version = "1", features = ["derive"] }
serde_json = "1"
chrono = "0.4"
url = "2"
zip = { version = "*", default-features = false, features = ["deflate"] }
anyhow = "1"
axum = "0.8"
