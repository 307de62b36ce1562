[package]
name = "walk_rs"
version = "0.1.0"
edition = "2021"
publish = false

[dependencies]
regex = "1"
file-format = "*"
