[package]
name = "sevenz_rust"
version = "0.1.0"
edition = "2021"
publish = false

[dependencies]
bit-set = "0.5"
byteorder = "1"
crc = "3"
lzma-rs = "0.3"
