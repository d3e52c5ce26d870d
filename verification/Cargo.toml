[package]
name = "shutterd"
version = "0.1.0"
edition = "2021"
publish = false

[dependencies]
anyhow = "*"
env_logger = "*"
fs-err = "*"
log = "*"
rppal = "*"
serde = { version = "*", features = ["derive"] }
toml = "*"
