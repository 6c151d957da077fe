[package]
name = "zkrelay"
version = "0.1.0"
edition = "2021"
publish = false

[dependencies]
bls12_381 = "0.8"
ff = "0.13"
group = "0.13"
pairing = "0.23"
rand_core = "0.6"

[dev-dependencies]
rand_xorshift = "0.3"
