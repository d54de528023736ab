[package]
name = "ferveo"
version = "0.1.0"
edition = "2021"
publish = false

[dependencies]
ark-bls12-381 = "0.4"
ark-ec = "0.4"
ark-ff = "0.4"
ark-poly = "0.4"
ark-serialize = "0.4"
ark-std = "0.4"
chacha20poly1305 = "0.10"
sha2 = "0.10"
rand = "0.8"
rand_core = "0.6"
hex = "0.4"
zeroize = "1"
serde = { version = "1", features = ["derive"] }
bincode = "1"
