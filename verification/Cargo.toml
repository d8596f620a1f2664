[package]
name = "mers_libs"
version = "0.1.0"
edition = "2021"
publish = false

[dependencies]
colorize = "*"
line-span = "*"
regex = "*"
