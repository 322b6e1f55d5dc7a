//! Verification against a known public key: low-S enforcement, the
//! verification equation, and public-key decoding.

use recoverable_ecdsa::errors::Error;
use recoverable_ecdsa::point::decode_point;
use recoverable_ecdsa::sig::{PlainSignature, Signature};
use recoverable_ecdsa::verification::Verifier;
use sha2::{Digest, Sha256};

const PK1: &str = "021a7a569e91dbf60581509c7fc946d1003b60c7dee85299538db6353538d59574";
const PK1_UNCOMPRESSED: &str = "041a7a569e91dbf60581509c7fc946d1003b60c7dee85299538db6353538d59574b4e89d60c7d584d084632d296f125f165b4df8e061a49daeba51d36133d03e1a";
const SIG1: &str = "ce53abb3721bafc561408ce8ff99c909f7f0b18a2f788649d6470162ab1aa0323971edc523a6d6453f3fb6128d318d9db1a5ff3386feb1047d9816e780039d5200";
const HIGH_S1: &str = "c68e123adc5929bac0c049ed72ce72610908ddb32849ef37423a47a55032a3ef";
const MSG: &[u8] = b"example message";

#[test]
fn verify_accepts_the_vector() {
    let pk = hex::decode(PK1).unwrap();
    let point = decode_point(&pk).unwrap();
    let plain = PlainSignature::parse(&hex::decode(SIG1).unwrap()[..64]).unwrap();
    let prehash = Sha256::digest(MSG);
    assert!(point.verify_prehashed(&prehash, &plain).is_ok());
}

#[test]
fn verify_rejects_other_message() {
    let pk = hex::decode(PK1).unwrap();
    let point = decode_point(&pk).unwrap();
    let plain = PlainSignature::parse(&hex::decode(SIG1).unwrap()[..64]).unwrap();
    let prehash = Sha256::digest(b"other message");
    assert_eq!(
        point.verify_prehashed(&prehash, &plain).unwrap_err(),
        Error::SignatureMismatch
    );
}

#[test]
fn verify_rejects_high_s() {
    // (r, n - s) satisfies the doubled equation but is not canonical
    let pk = hex::decode(PK1).unwrap();
    let point = decode_point(&pk).unwrap();
    let mut high = hex::decode(SIG1).unwrap()[..64].to_vec();
    high[32..64].copy_from_slice(&hex::decode(HIGH_S1).unwrap());
    let plain = PlainSignature::parse(&high).unwrap();
    let prehash = Sha256::digest(MSG);
    assert_eq!(
        point.verify_prehashed(&prehash, &plain).unwrap_err(),
        Error::HighSRejected
    );
}

#[test]
fn uncompressed_key_decodes_to_the_same_point() {
    let c = decode_point(&hex::decode(PK1).unwrap()).unwrap();
    let u = decode_point(&hex::decode(PK1_UNCOMPRESSED).unwrap()).unwrap();
    let plain = PlainSignature::parse(&hex::decode(SIG1).unwrap()[..64]).unwrap();
    let prehash = Sha256::digest(MSG);
    assert!(c.verify_prehashed(&prehash, &plain).is_ok());
    assert!(u.verify_prehashed(&prehash, &plain).is_ok());
}

#[test]
fn verifier_rejects_invalid_public_keys() {
    // bad tag
    let mut bad_tag = hex::decode(PK1).unwrap();
    bad_tag[0] = 0x05;
    assert_eq!(
        Verifier::new(&bad_tag).unwrap_err(),
        Error::InvalidPublicKey
    );
    // bad length
    assert_eq!(
        Verifier::new(&bad_tag[..32]).unwrap_err(),
        Error::InvalidPublicKey
    );
    // an x-coordinate whose curve polynomial value has no square root
    let mut off_curve = vec![0u8; 33];
    off_curve[0] = 0x02;
    off_curve[32] = 5;
    assert_eq!(
        Verifier::new(&off_curve).unwrap_err(),
        Error::InvalidPublicKey
    );
    // an uncompressed pair that does not satisfy the equation
    let mut wrong = hex::decode(PK1_UNCOMPRESSED).unwrap();
    wrong[64] ^= 1;
    assert_eq!(Verifier::new(&wrong).unwrap_err(), Error::InvalidPublicKey);
}

#[test]
fn verifier_digests_with_keccak() {
    // the verifier hashes the message with Keccak-256, so a signature made
    // over the SHA-256 digest of the same message must not verify
    let pk = hex::decode(PK1).unwrap();
    let verifier = Verifier::new(&pk).unwrap();
    let sig_bytes = hex::decode(SIG1).unwrap();
    let plain = PlainSignature::parse(&sig_bytes[..64]).unwrap();
    assert_eq!(
        verifier.verify(MSG, &plain).unwrap_err(),
        Error::SignatureMismatch
    );
    let rec = Signature::parse(&sig_bytes).unwrap();
    assert_eq!(
        verifier.verify_recoverable(MSG, &rec).unwrap_err(),
        Error::SignatureMismatch
    );
}

#[test]
fn point_codec_round_trip() {
    let pk = hex::decode(PK1).unwrap();
    let point = decode_point(&pk).unwrap();
    let encoded = recoverable_ecdsa::point::encode_compressed(&point).unwrap();
    assert_eq!(encoded, pk);
    let from_uncompressed = decode_point(&hex::decode(PK1_UNCOMPRESSED).unwrap()).unwrap();
    let encoded2 = recoverable_ecdsa::point::encode_compressed(&from_uncompressed).unwrap();
    assert_eq!(encoded2, pk);
}
