[package]
name = "ec_crypto"
version = "0.1.0"
edition = "2021"
publish = false

[dependencies]
k256 = "0.13"
num-bigint-dig = "0.8"
rand_chacha = "0.3"
sha2 = "0.10"
