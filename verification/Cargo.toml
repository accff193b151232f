[package]
name = "rslox"
version = "0.1.0"
edition = "2021"

[dependencies]
anyhow = "1"
env_logger = "*"
log = "0.4"
