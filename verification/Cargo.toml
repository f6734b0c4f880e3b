[package]
name = "neuroevolution"
version = "0.1.0"
edition = "2021"
publish = false

[dependencies]
rand = "0.9"

[dev-dependencies]
rand_chacha = "0.9"
