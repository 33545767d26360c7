[package]
name = "cometty"
version = "0.1.0"
edition = "2021"
publish = false

[dependencies]
unicode-width = "=0.2.3"
unicode-segmentation = "=1.13.3"
vte = "=0.15.0"
log = "=0.4.35"
anyhow = "=1.0.104"
serde = { version = "=1.0.229", features = ["derive"] }
toml = "=1.1.8"
portable-pty = "=0.9.0"
env_filter = { version = "0.1", default-features = false }
env_logger = { version = "0.11", default-features = false }
