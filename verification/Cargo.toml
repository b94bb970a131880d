[package]
name = "lostower"
version = "0.1.0"
edition = "2021"
publish = false

[dependencies]
anyhow = "1"
crossterm = "*"
dirs = "*"
encoding_rs = "*"
html2text = "*"
ratatui = "*"
serde = { version = "1", features = ["derive"] }
toml = "*"
xml-rs = "*"
zip = { version = "*", default-features = false, features = ["deflate"] }
