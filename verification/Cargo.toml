[package]
name = "tagen"
version = "0.1.0"
edition = "2021"
publish = false

[dependencies]
bit_field = "0.10"
byteorder = "1"
encoding = "0.2"
num = "0.2"
clap = "2"
humansize = "1"
humantime = "2"
memmap = "0.7"
