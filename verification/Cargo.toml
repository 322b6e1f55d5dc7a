[package]
name = "recoverable_ecdsa"
version = "0.1.0"
edition = "2021"
publish = false

[dependencies]
num-bigint = "0.4"
sha3 = "0.10"

[dev-dependencies]
sha2 = "0.10"
hex = "0.4"
