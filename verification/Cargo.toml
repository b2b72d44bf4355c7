[package]
name = "hello_nn"
version = "0.1.0"
edition = "2021"
publish = false

[dependencies]
anyhow = "1"
bytes = "1"
image = { version = "0.24", default-features = false }
ndarray = "0.15"
ndarray-rand = "0.14"
rand = "0.8"
