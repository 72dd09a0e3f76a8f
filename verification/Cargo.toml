[package]
name = "deep_learning"
version = "0.1.0"
edition = "2021"
publish = false

[dependencies]
rand = "0.8"
rand_distr = "0.4"
rand_xorshift = "0.3"
