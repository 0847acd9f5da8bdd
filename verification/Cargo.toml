[package]
name = "common_types"
version = "0.1.0"
edition = "2021"
publish = false

[dependencies]
ethereum-types = "0.12"
keccak-hash = "0.8"
parity-crypto = { version = "0.9", features = ["publickey"] }
rlp = "0.5"
rustc-hex = "2"
