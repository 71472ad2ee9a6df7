[package]
name = "sha256_spread"
version = "0.1.0"
edition = "2021"
publish = false

[dependencies]
halo2-base = "*"
