[package]
name = "swb"
version = "0.1.0"
edition = "2021"
publish = false

[dependencies]
anyhow = "1"
ascii = "1"
embassy-executor = "*"
embassy-futures = "*"
embedded-graphics = "*"
env_logger = "*"
