[package]
name = "signer_keys"
version = "0.1.0"
edition = "2021"
publish = false

[dependencies]
anyhow = "=1.0.104"
blst = "=0.3.17"
ecies = { version = "=0.2.11", default-features = false, features = ["pure", "std"] }
hex = "=0.4.3"
rand = "=0.8.8"
rand_chacha = "=0.3.1"
sha3 = "=0.10.9"
