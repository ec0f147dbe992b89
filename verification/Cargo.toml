[package]
name = "arche"
version = "0.1.0"
edition = "2021"
publish = false

[dependencies]
mime = "0.3"
validator = "*"
serde = { version = "*", features = ["derive"] }
serde_json = "*"
chrono = "*"
