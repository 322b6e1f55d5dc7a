//! Wire-format construction, parsing and round trips.

use recoverable_ecdsa::errors::Error;
use recoverable_ecdsa::sig::{Id, PlainSignature, Signature};

const SIG1: &str = "ce53abb3721bafc561408ce8ff99c909f7f0b18a2f788649d6470162ab1aa0323971edc523a6d6453f3fb6128d318d9db1a5ff3386feb1047d9816e780039d5200";
const HIGH_S1: &str = "c68e123adc5929bac0c049ed72ce72610908ddb32849ef37423a47a55032a3ef";

#[test]
fn id_accepts_only_zero_and_one() {
    assert!(Id::new(0).is_ok());
    assert!(Id::new(1).is_ok());
    for byte in 2..=255u8 {
        assert_eq!(Id::new(byte).unwrap_err(), Error::InvalidRecoveryId);
    }
}

#[test]
fn id_reports_parity() {
    assert!(!Id::new(0).unwrap().is_y_odd());
    assert!(Id::new(1).unwrap().is_y_odd());
}

#[test]
fn parse_round_trip() {
    let sig_bytes = hex::decode(SIG1).unwrap();
    let sig = Signature::parse(&sig_bytes).unwrap();
    assert_eq!(sig.to_bytes(), sig_bytes);
    let reparsed = Signature::parse(&sig.to_bytes()).unwrap();
    assert!(reparsed == sig);
    assert_eq!(reparsed.recovery_id().to_byte(), 0);
}

#[test]
fn new_concatenates_plain_and_id() {
    let sig_bytes = hex::decode(SIG1).unwrap();
    let plain = PlainSignature::parse(&sig_bytes[..64]).unwrap();
    let id = Id::new(1).unwrap();
    let rec = Signature::new(&plain, id).unwrap();
    assert_eq!(&rec.as_bytes()[..64], &sig_bytes[..64]);
    assert_eq!(rec.as_bytes()[64], 1);
    assert!(rec.recovery_id().is_y_odd());
}

#[test]
fn scalar_getters_expose_halves() {
    let sig_bytes = hex::decode(SIG1).unwrap();
    let sig = Signature::parse(&sig_bytes).unwrap();
    assert_eq!(sig.r().as_bytes().as_slice(), &sig_bytes[..32]);
    assert_eq!(sig.s().as_bytes().as_slice(), &sig_bytes[32..64]);
}

#[test]
fn parse_rejects_wrong_lengths() {
    let sig_bytes = hex::decode(SIG1).unwrap();
    assert_eq!(
        Signature::parse(&sig_bytes[..64]).unwrap_err(),
        Error::InvalidLength
    );
    let mut longer = sig_bytes.clone();
    longer.push(0);
    assert_eq!(Signature::parse(&longer).unwrap_err(), Error::InvalidLength);
    assert_eq!(
        PlainSignature::parse(&sig_bytes[..63]).unwrap_err(),
        Error::InvalidLength
    );
}

#[test]
fn parse_rejects_zero_scalars() {
    let sig_bytes = hex::decode(SIG1).unwrap();
    let mut zero_r = sig_bytes.clone();
    for i in 0..32 {
        zero_r[i] = 0;
    }
    assert_eq!(
        Signature::parse(&zero_r).unwrap_err(),
        Error::ScalarOutOfRange
    );
    let mut zero_s = sig_bytes.clone();
    for i in 32..64 {
        zero_s[i] = 0;
    }
    assert_eq!(
        Signature::parse(&zero_s).unwrap_err(),
        Error::ScalarOutOfRange
    );
    assert_eq!(
        PlainSignature::parse(&zero_r[..64]).unwrap_err(),
        Error::ScalarOutOfRange
    );
    assert_eq!(
        PlainSignature::parse(&zero_s[..64]).unwrap_err(),
        Error::ScalarOutOfRange
    );
}

#[test]
fn parse_rejects_non_canonical_scalars() {
    // the all-ones string is above the curve order
    let sig_bytes = hex::decode(SIG1).unwrap();
    let mut big_r = sig_bytes.clone();
    for i in 0..32 {
        big_r[i] = 0xff;
    }
    assert_eq!(
        Signature::parse(&big_r).unwrap_err(),
        Error::ScalarOutOfRange
    );
}

#[test]
fn parse_rejects_overflow_recovery_ids() {
    let sig_bytes = hex::decode(SIG1).unwrap();
    for id in [2u8, 3, 4, 27, 255] {
        let mut bad = sig_bytes.clone();
        bad[64] = id;
        assert_eq!(Signature::parse(&bad).unwrap_err(), Error::InvalidRecoveryId);
    }
}

#[test]
fn normalize_s_lowers_a_high_s() {
    let sig_bytes = hex::decode(SIG1).unwrap();
    let mut high = sig_bytes[..64].to_vec();
    high[32..64].copy_from_slice(&hex::decode(HIGH_S1).unwrap());
    let plain = PlainSignature::parse(&high).unwrap();
    assert!(plain.is_s_high());
    let low = plain.normalize_s();
    assert!(!low.is_s_high());
    assert_eq!(low.as_bytes().as_slice(), &sig_bytes[..64]);
    // an already-low signature is unchanged
    let plain_low = PlainSignature::parse(&sig_bytes[..64]).unwrap();
    assert_eq!(
        plain_low.normalize_s().as_bytes().as_slice(),
        &sig_bytes[..64]
    );
}
