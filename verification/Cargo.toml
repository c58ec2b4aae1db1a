[package]
name = "untfo_rs"
version = "0.1.0"
edition = "2021"

[dependencies]
aes = "0.7"
block-modes = "0.8"
md5 = "0.7"
