[package]
name = "camkit"
version = "0.1.0"
edition = "2021"
publish = false

[dependencies]
anyhow = "=1.0.104"
argmin = { version = "=0.4.7", features = ["nalgebral"] }
image = { version = "=0.23.14", default-features = false, features = ["jpeg"] }
nalgebra = "=0.29.0"
