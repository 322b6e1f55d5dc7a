//! Public-key recovery against fixed vectors.

use recoverable_ecdsa::errors::Error;
use recoverable_ecdsa::recovery::keccak256;
use recoverable_ecdsa::sig::{PlainSignature, Signature};
use sha2::{Digest, Sha256};

const PK1: &str = "021a7a569e91dbf60581509c7fc946d1003b60c7dee85299538db6353538d59574";
const SIG1: &str = "ce53abb3721bafc561408ce8ff99c909f7f0b18a2f788649d6470162ab1aa0323971edc523a6d6453f3fb6128d318d9db1a5ff3386feb1047d9816e780039d5200";
const PK2: &str = "036d6caac248af96f6afa7f904f550253a0f3ef3f5aa2fe6838a95b216691468e2";
const SIG2: &str = "46c05b6368a44b8810d79859441d819b8e7cdc8bfd371e35c53196f4bcacdb5135c7facce2a97b95eacba8a586d87b7958aaf8368ab29cee481f76e871dbd9cb01";
const MSG: &[u8] = b"example message";
const HIGH_S1: &str = "c68e123adc5929bac0c049ed72ce72610908ddb32849ef37423a47a55032a3ef";

#[test]
fn public_key_recovery() {
    for (pk_hex, sig_hex) in [(PK1, SIG1), (PK2, SIG2)] {
        let sig_bytes = hex::decode(sig_hex).unwrap();
        let sig = Signature::parse(&sig_bytes).unwrap();
        let prehash = Sha256::digest(MSG);
        let pk = sig.recover_public_key_from_prehash(&prehash).unwrap();
        assert_eq!(hex::decode(pk_hex).unwrap(), pk);
    }
}

#[test]
fn trial_recovery_finds_each_id() {
    let digest = Sha256::digest(MSG).to_vec();
    for (pk_hex, sig_hex) in [(PK1, SIG1), (PK2, SIG2)] {
        let sig_bytes = hex::decode(sig_hex).unwrap();
        let plain = PlainSignature::parse(&sig_bytes[..64]).unwrap();
        let pk = hex::decode(pk_hex).unwrap();
        let found = Signature::from_trial_recovery(&pk, &digest, &plain).unwrap();
        // both vector s-halves are already low, so the found signature is
        // byte-for-byte the vector one, identifier included
        assert_eq!(found.as_bytes().as_slice(), &sig_bytes[..]);
    }
}

#[test]
fn trial_recovery_normalizes_high_s() {
    // the mirrored s half is first lowered, so trial recovery finds the
    // vector's own low-s signature, identifier included
    let digest = Sha256::digest(MSG).to_vec();
    let sig_bytes = hex::decode(SIG1).unwrap();
    let mut high = sig_bytes[..64].to_vec();
    high[32..64].copy_from_slice(&hex::decode(HIGH_S1).unwrap());
    let plain = PlainSignature::parse(&high).unwrap();
    let pk = hex::decode(PK1).unwrap();
    let found = Signature::from_trial_recovery(&pk, &digest, &plain).unwrap();
    assert_eq!(found.as_bytes().as_slice(), &sig_bytes[..]);
}

#[test]
fn trial_recovery_rejects_wrong_key() {
    let digest = Sha256::digest(MSG).to_vec();
    let sig_bytes = hex::decode(SIG1).unwrap();
    let plain = PlainSignature::parse(&sig_bytes[..64]).unwrap();
    let other_pk = hex::decode(PK2).unwrap();
    let res = Signature::from_trial_recovery(&other_pk, &digest, &plain);
    assert_eq!(res.unwrap_err(), Error::RecoveryFailed);
}

#[test]
fn wrong_id_recovers_a_different_key() {
    let mut sig_bytes = hex::decode(SIG1).unwrap();
    sig_bytes[64] = 1; // the vector's correct identifier is 0
    let sig = Signature::parse(&sig_bytes).unwrap();
    let prehash = Sha256::digest(MSG);
    match sig.recover_public_key_from_prehash(&prehash) {
        Ok(pk) => assert_ne!(hex::decode(PK1).unwrap(), pk),
        Err(e) => assert_eq!(e, Error::PointRecoveryFailed),
    }
}

#[test]
fn non_residue_r_fails_point_recovery() {
    // x = 5 makes x^3 + 7 a quadratic non-residue mod p, so no point has
    // that x-coordinate and recovery cannot reconstruct one
    let mut sig_bytes = vec![0u8; 65];
    sig_bytes[31] = 5;
    sig_bytes[32..64].copy_from_slice(&hex::decode(SIG1).unwrap()[32..64]);
    let sig = Signature::parse(&sig_bytes).unwrap();
    let prehash = Sha256::digest(MSG);
    let res = sig.recover_public_key_from_prehash(&prehash);
    assert_eq!(res.unwrap_err(), Error::PointRecoveryFailed);
}

#[test]
fn keccak_digest_matches_known_vector() {
    // Keccak-256 of the empty message, as fixed by the Ethereum ecosystem
    let d = keccak256(b"");
    assert_eq!(
        hex::encode(&d),
        "c5d2460186f7233c927e7db2dcc703c0e500b653ca82273b7bfad8045d85a470"
    );
}

#[test]
fn recover_with_keccak_is_recovery_from_its_digest() {
    let sig_bytes = hex::decode(SIG1).unwrap();
    let sig = Signature::parse(&sig_bytes).unwrap();
    let d = keccak256(MSG);
    let a = sig.recover_public_key(MSG).unwrap();
    let b = sig.recover_public_key_from_prehash(&d).unwrap();
    assert_eq!(a, b);
}
