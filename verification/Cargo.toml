[package]
name = "festival_api"
version = "0.1.0"
edition = "2021"
publish = false

[dependencies]
priority-queue = "=1.4.0"
hex = "=0.4.3"
sha2 = "=0.10.9"
rand = "=0.8.8"
argon2 = "0.4"
toml = "=0.7.8"
serde = { version = "=1.0.229", features = ["derive"] }
chrono = "=0.4.45"
