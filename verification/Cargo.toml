[package]
name = "biski64"
version = "0.1.0"
edition = "2021"
publish = false

[dependencies]
rand_core = "*"
