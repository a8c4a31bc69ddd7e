[package]
name = "dvrf"
version = "0.1.0"
edition = "2021"
publish = false

[dependencies]
halo2curves = "=0.6.1"
blake2b_simd = "=1.0.5"
rand_core = "=0.6.4"

[dev-dependencies]
rand_chacha = "=0.3.1"
