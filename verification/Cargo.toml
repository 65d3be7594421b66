[package]
name = "web_proof"
version = "0.1.0"
edition = "2021"
publish = false

[dependencies]
bellman_ce = "=0.3.5"
pairing_ce = "=0.21.1"
ff_ce = "=0.10.3"
sapling-crypto_ce = "=0.1.3"
rand = "=0.4.6"
hex = "=0.4.3"
