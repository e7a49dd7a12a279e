[package]
name = "hex_view"
version = "0.1.0"
edition = "2021"
publish = false

[dependencies]
byteorder = "*"
termion = "*"
