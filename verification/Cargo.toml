[package]
name = "file_station"
version = "0.1.0"
edition = "2021"
publish = false

[dependencies]
argon2 = "=0.6.0"
jsonwebtoken = { version = "=11.1.0", features = ["rust_crypto"] }
rand = "=0.10.3"
percent-encoding = "=2.3.2"
serde_json = "=1.0.151"
