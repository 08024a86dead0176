[package]
name = "pluggie"
version = "0.1.0"
edition = "2021"
publish = false

[dependencies]
abi_stable = "0.11"
sha2-const = "*"
tuplestructops = "*"
libloading = "0.8"
