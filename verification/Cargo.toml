[package]
name = "afmt"
version = "0.1.0"
edition = "2021"
publish = false

[dependencies]
anyhow = "*"
colored = "*"
serde = { version = "*", features = ["derive"] }
toml = "*"
