[package]
name = "word_lookup"
version = "0.1.0"
edition = "2021"
publish = false

[dependencies]
regex = "*"
percent-encoding = "*"
cgi = "*"
serde = { version = "*", features = ["derive"] }
serde_json = "*"
