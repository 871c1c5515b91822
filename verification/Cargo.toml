[package]
name = "wabasen"
version = "0.1.0"
edition = "2021"
publish = false

[dependencies]
chacha20poly1305 = "*"
clap = "*"
flate2 = "*"
hex = "*"
indicatif = "*"
secp256k1 = { version = "*", features = ["recovery"] }
tar = "*"
tiny-keccak = { version = "*", features = ["keccak"] }
