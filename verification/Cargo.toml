[package]
name = "clg"
version = "0.1.0"
edition = "2021"
publish = false

[dependencies]
rand = "0.8"
serde = { version = "1", features = ["derive"] }
serde_yaml = "0.9"
serde_json = "1"
unicode-width = "0.1"
crossterm = "0.27"
notify = "6"
