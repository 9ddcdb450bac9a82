[package]
name = "book_studio"
version = "0.1.0"
edition = "2021"
publish = false

[dependencies]
sha2 = "0.10"
aes-gcm = "0.10"
base64 = "0.22"
rand = "0.8"
serde = { version = "1", features = ["derive"] }
serde_json = "1"
