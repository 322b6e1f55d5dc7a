//! Ethereum-style recoverable ECDSA signatures over secp256k1.
//!
//! A recoverable signature carries, besides the usual `(r, s)` scalar pair,
//! a one-bit recovery identifier that lets a verifier reconstruct the
//! signer's public key from the signature and the message digest alone.
//! This crate implements the 65-byte wire form, the two-candidate trial
//! recovery search, the public-key reconstruction algorithm, and the
//! primitive verification equation with low-S enforcement.

pub mod bytes;
pub mod consts;
pub mod bigmod;
pub mod errors;
pub mod field;
pub mod point;
pub mod sig;
pub mod recovery;
pub mod verification;
pub mod laws;
