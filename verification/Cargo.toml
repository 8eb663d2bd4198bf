[package]
name = "pic_asm"
version = "0.1.0"
edition = "2021"
publish = false

[dev-dependencies]
regex = "=1.13.1"
