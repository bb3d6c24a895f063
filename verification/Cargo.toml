[package]
name = "persistent_array"
version = "0.1.0"
edition = "2021"
publish = false

[dependencies]
memmap = "0.6"

[dev-dependencies]
fs-err = "*"
tempfile = "*"
