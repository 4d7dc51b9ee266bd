[package]
name = "connect_n"
version = "0.1.0"
edition = "2021"
publish = false

[dependencies]
inline_colorization = "*"
