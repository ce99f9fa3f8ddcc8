[package]
name = "lockmem"
version = "0.1.0"
edition = "2021"
publish = false

[dependencies]
windows-core = "*"
log = "*"
env_logger = "*"
