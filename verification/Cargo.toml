[package]
name = "unicode_info"
version = "0.1.0"
edition = "2021"
publish = false

[dependencies]
clap = { version = "4", features = ["derive"] }
unic-char-property = "0.9"
unic-ucd = "0.9"
