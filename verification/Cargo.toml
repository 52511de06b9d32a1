[package]
name = "twitter_text"
version = "0.1.0"
edition = "2021"
publish = false

[dependencies]
idna = "1"
emojis = "*"
unicode-normalization = "0.1"
serde = { version = "1", features = ["derive"] }
serde_json = "1"
