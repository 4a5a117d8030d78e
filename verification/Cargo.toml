[package]
name = "demoparser"
version = "0.1.0"
edition = "2021"
publish = false

[dependencies]
bitter = "*"
snap = "*"
regex = "*"
memmap2 = "*"
