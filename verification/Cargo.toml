[package]
name = "maxwell"
version = "0.1.0"
edition = "2021"
publish = false

[dependencies]
rand = "0.8"
serde = { version = "1", features = ["derive"] }
toml = "0.8"
anyhow = "1"
rfd = "0.15"
