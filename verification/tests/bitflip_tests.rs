//! Flipping any single bit in r or s of a valid signature must make
//! recovery either fail or recover a different public key, never the
//! original. A spread of bit positions across both halves is exercised.

use recoverable_ecdsa::errors::Error;
use recoverable_ecdsa::sig::Signature;
use sha2::{Digest, Sha256};

const PK1: &str = "021a7a569e91dbf60581509c7fc946d1003b60c7dee85299538db6353538d59574";
const SIG1: &str = "ce53abb3721bafc561408ce8ff99c909f7f0b18a2f788649d6470162ab1aa0323971edc523a6d6453f3fb6128d318d9db1a5ff3386feb1047d9816e780039d5200";
const MSG: &[u8] = b"example message";

fn assert_flip_never_recovers_original(byte_positions: &[usize]) {
    let sig_bytes = hex::decode(SIG1).unwrap();
    let pk = hex::decode(PK1).unwrap();
    let prehash = Sha256::digest(MSG);
    for &pos in byte_positions {
        let mut flipped = sig_bytes.clone();
        flipped[pos] ^= 1 << (pos % 8);
        match Signature::parse(&flipped) {
            Err(e) => assert_eq!(e, Error::ScalarOutOfRange),
            Ok(sig) => match sig.recover_public_key_from_prehash(&prehash) {
                Err(e) => assert_eq!(e, Error::PointRecoveryFailed),
                Ok(recovered) => assert_ne!(pk, recovered),
            },
        }
    }
}

#[test]
fn bit_flips_in_r_change_or_break_recovery() {
    assert_flip_never_recovers_original(&[0, 5, 10, 15, 20, 25, 28, 31]);
}

#[test]
fn bit_flips_in_s_change_or_break_recovery() {
    assert_flip_never_recovers_original(&[32, 37, 42, 47, 52, 57, 60, 63]);
}
