[package]
name = "den"
version = "0.1.0"
edition = "2021"
publish = false

[dependencies]
crossterm = "*"
unicode-width = "*"
portable-pty = "*"
serde = { version = "*", features = ["derive"] }
serde_json = "*"
toml = "*"
