[package]
name = "compat"
version = "0.1.0"
edition = "2021"
publish = false

[dependencies]
home = "*"
libc = "*"
