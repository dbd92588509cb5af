[package]
name = "mikan_xhci"
version = "0.1.0"
edition = "2021"
publish = false

[dependencies]
xhci = "*"
num-traits = "*"
accessor = "*"
