[package]
name = "defiant"
version = "0.1.0"
edition = "2021"
publish = false

[dependencies]
bytes = "1"
bumpalo = { version = "3", features = ["collections"] }
itertools = "*"
env_logger = "*"
