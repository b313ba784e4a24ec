[package]
name = "cfd_rust"
version = "0.1.0"
edition = "2021"
publish = false

[dependencies]
ndarray = "*"
ndarray-npy = { version = "*", default-features = false }
