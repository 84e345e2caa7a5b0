[package]
name = "block_device"
version = "0.1.0"
edition = "2021"
publish = false

[dependencies]
io-uring = "*"
