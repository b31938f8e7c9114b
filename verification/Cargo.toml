[package]
name = "algosig"
version = "0.1.0"
edition = "2021"
publish = false

[dependencies]
ring = "*"
sha2 = "*"
data-encoding = "*"
rand = "0.8"
algonaut_core = "*"

[dev-dependencies]
ed25519-dalek = "*"
