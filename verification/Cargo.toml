[package]
name = "bch3ds"
version = "0.1.0"
edition = "2021"
publish = false

[dependencies]
obj-exporter = "*"
env_logger = "*"
