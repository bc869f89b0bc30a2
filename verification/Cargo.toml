[package]
name = "kopium"
version = "0.1.0"
edition = "2021"
publish = false

[dependencies]
anyhow = "*"
clap = "*"
env_logger = "*"
log = "*"
serde_json = "*"
