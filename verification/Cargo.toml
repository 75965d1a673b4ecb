[package]
name = "zk_coloring"
version = "0.1.0"
edition = "2021"
publish = false

[dependencies]
crypto-hash = "0.3"
rand = "0.8"
rand_chacha = "0.3"
