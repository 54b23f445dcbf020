[package]
name = "chat_message"
version = "0.1.0"
edition = "2021"
publish = false

[dependencies]
chrono = "0.4"
emojis = "0.5"
matrix-sdk = { version = "0.6.2", default-features = false, features = ["rustls-tls"] }
modalkit = "0.0.16"
thiserror = "1.0"
unicode-width = "=0.1.10"
