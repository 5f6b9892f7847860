[package]
name = "incarnation"
version = "0.1.0"
edition = "2021"
publish = false

[dependencies]
byteorder = "=1.5.0"
memmap = "0.7"
regex = "=1.13.1"
