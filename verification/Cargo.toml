[package]
name = "mcproto"
version = "0.1.0"
edition = "2021"
publish = false

[dependencies]
aes = "0.8"
bytes = "1"
colored = "2"
flate2 = "1"

[dev-dependencies]
cfb8 = "0.8"
