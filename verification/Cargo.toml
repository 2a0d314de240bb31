[package]
name = "matter"
version = "0.1.0"
edition = "2021"
publish = false

[dependencies]
openssl = "0.10"
sha2 = "0.9"
hmac = "0.11"
hkdf = "0.11"
pbkdf2 = "0.8"
chrono = "0.4"
rand = "0.8"
