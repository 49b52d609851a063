[package]
name = "engine"
version = "0.1.0"
edition = "2021"
publish = false

[dependencies]
csv = "1"
env_logger = "*"
log = "0.4"
rust_decimal = { version = "1", default-features = false, features = ["std"] }
thiserror = "1"
