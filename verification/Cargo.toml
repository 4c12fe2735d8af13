[package]
name = "conv_accel"
version = "0.1.0"
edition = "2021"
publish = false

[dependencies]
ndarray = "*"
ndarray-linalg = "*"
num = "*"
