[package]
name = "rustpython-arabiya"
version = "0.1.0"
edition = "2021"
publish = false

[dependencies]
rustpython-vm = "=0.4.0"
