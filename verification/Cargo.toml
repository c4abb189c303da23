[package]
name = "rust_7941w_reader"
version = "0.1.0"
edition = "2021"
publish = false

[dependencies]
rpi_embedded = "*"
