[package]
name = "mdbook_llms_txt"
version = "0.1.0"
edition = "2021"
publish = false

[dependencies]
mdbook = { version = "=0.4.52", default-features = false }
clap = { version = "=4.6.7", features = ["derive"] }
anyhow = "=1.0.104"
env_logger = "=0.11.11"
log = "=0.4.34"
