[package]
name = "mdbook_qr"
version = "0.1.0"
edition = "2021"
publish = false

[dependencies]
pathdiff = "=0.2.3"
anyhow = "=1.0.104"
blake3 = "=1.8.7"
clap = "=4.6.7"
env_logger = "=0.11.11"
fast_qr = { version = "=0.14.0", features = ["image"] }
log = "=0.4.34"
mdbook = { version = "=0.4.52", default-features = false }
serde = { version = "=1.0.229", features = ["derive"] }
serde_json = "=1.0.151"
toml = "*"
