[package]
name = "rknpu"
version = "0.1.0"
edition = "2021"
publish = false

[dependencies]
anyhow = "*"
image = "*"
imageproc = "*"
