[package]
name = "fdtshim"
version = "0.1.0"
edition = "2021"
publish = false

[dependencies]
flat_device_tree = "*"
uefi = { version = "0.28", features = ["alloc"] }
log = "0.4"
