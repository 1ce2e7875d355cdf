[package]
name = "pb-rs"
version = "0.10.0"
edition = "2021"
publish = false

[dependencies]
clap = "2"
env_logger = "*"
failure = "0.1"
log = "0.4"
thiserror = "1"
