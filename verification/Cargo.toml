[package]
name = "matmul"
version = "0.1.0"
edition = "2021"
publish = false

[dependencies]
ndarray = "*"
num-traits = "0.2"
tract-linalg = "0.4"
