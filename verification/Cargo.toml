[package]
name = "kitties"
version = "0.1.0"
edition = "2021"
publish = false

[dependencies]
sp-io = "*"
sp-runtime = "*"
frame-support = "*"
frame-system = "*"
