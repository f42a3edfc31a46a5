[package]
name = "blockwalk"
version = "0.1.0"
edition = "2021"
publish = false

[dependencies]
byteorder = "*"
log = "*"
env_logger = "*"
