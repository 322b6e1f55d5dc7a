//! Modular big-integer arithmetic, delegated to an arbitrary-precision
//! integer library.
//!
//! The constant-time field and scalar arithmetic underneath an ECDSA
//! implementation is a self-contained collaborator; here each operation is a
//! thin wrapper around `num_bigint::BigUint`, with its exact mathematical
//! meaning as its contract. Values cross the boundary as 32-byte big-endian
//! strings, read through [`be_val`].

use vstd::prelude::*;
use num_bigint::BigUint;
use crate::bytes::be_val;

verus! {

/// `b^e mod m`, with `0^0` read as `1`.
pub open spec fn pow_mod(b: nat, e: nat, m: nat) -> nat
    recommends
        m > 0,
    decreases e,
{
    if e == 0 {
        1nat % m
    } else {
        (b * pow_mod(b, (e - 1) as nat, m)) % m
    }
}

/// Relies on `num_bigint::BigUint`: addition, remainder, and big-endian
/// byte conversion, to compute `(a + b) mod m`.
#[verifier::external_body]
pub(crate) fn mod_add(a: &Vec<u8>, b: &Vec<u8>, m: &Vec<u8>) -> (r: Vec<u8>)
    requires
        m@.len() == 32,
        be_val(m@) > 0,
    ensures
        r@.len() == 32,
        be_val(r@) == (be_val(a@) + be_val(b@)) % be_val(m@),
        be_val(r@) < be_val(m@),
{
    let x = (BigUint::from_bytes_be(a) + BigUint::from_bytes_be(b)) % BigUint::from_bytes_be(m);
    let xb = x.to_bytes_be();
    let mut out = vec![0u8; 32];
    out[32 - xb.len()..].copy_from_slice(&xb);
    out
}

/// Relies on `num_bigint::BigUint`: subtraction, addition, remainder, and
/// big-endian byte conversion, to compute `(a + m - b) mod m`.
#[verifier::external_body]
pub(crate) fn mod_sub(a: &Vec<u8>, b: &Vec<u8>, m: &Vec<u8>) -> (r: Vec<u8>)
    requires
        m@.len() == 32,
        be_val(m@) > 0,
        be_val(b@) < be_val(m@),
    ensures
        r@.len() == 32,
        be_val(r@) == ((be_val(a@) + be_val(m@)) - be_val(b@)) % (be_val(m@) as int),
        be_val(r@) < be_val(m@),
{
    let x = ((BigUint::from_bytes_be(a) + BigUint::from_bytes_be(m)) - BigUint::from_bytes_be(b))
        % BigUint::from_bytes_be(m);
    let xb = x.to_bytes_be();
    let mut out = vec![0u8; 32];
    out[32 - xb.len()..].copy_from_slice(&xb);
    out
}

/// Relies on `num_bigint::BigUint`: multiplication, remainder, and
/// big-endian byte conversion, to compute `(a * b) mod m`.
#[verifier::external_body]
pub(crate) fn mod_mul(a: &Vec<u8>, b: &Vec<u8>, m: &Vec<u8>) -> (r: Vec<u8>)
    requires
        m@.len() == 32,
        be_val(m@) > 0,
    ensures
        r@.len() == 32,
        be_val(r@) == (be_val(a@) * be_val(b@)) % be_val(m@),
        be_val(r@) < be_val(m@),
{
    let x = (BigUint::from_bytes_be(a) * BigUint::from_bytes_be(b)) % BigUint::from_bytes_be(m);
    let xb = x.to_bytes_be();
    let mut out = vec![0u8; 32];
    out[32 - xb.len()..].copy_from_slice(&xb);
    out
}

/// Relies on `num_bigint::BigUint::modpow`, which returns
/// `(self ^ exponent) % modulus`, to compute `b^e mod m`.
#[verifier::external_body]
pub(crate) fn mod_pow(b: &Vec<u8>, e: &Vec<u8>, m: &Vec<u8>) -> (r: Vec<u8>)
    requires
        m@.len() == 32,
        be_val(m@) > 1,
    ensures
        r@.len() == 32,
        be_val(r@) == pow_mod(be_val(b@), be_val(e@), be_val(m@)),
        be_val(r@) < be_val(m@),
{
    let x = BigUint::from_bytes_be(b).modpow(&BigUint::from_bytes_be(e), &BigUint::from_bytes_be(m));
    let xb = x.to_bytes_be();
    let mut out = vec![0u8; 32];
    out[32 - xb.len()..].copy_from_slice(&xb);
    out
}

/// Relies on `num_bigint::BigUint`: remainder and big-endian byte
/// conversion, to reduce an arbitrary big-endian string mod m.
#[verifier::external_body]
pub(crate) fn mod_reduce(a: &Vec<u8>, m: &Vec<u8>) -> (r: Vec<u8>)
    requires
        m@.len() == 32,
        be_val(m@) > 0,
    ensures
        r@.len() == 32,
        be_val(r@) == be_val(a@) % be_val(m@),
        be_val(r@) < be_val(m@),
{
    let x = BigUint::from_bytes_be(a) % BigUint::from_bytes_be(m);
    let xb = x.to_bytes_be();
    let mut out = vec![0u8; 32];
    out[32 - xb.len()..].copy_from_slice(&xb);
    out
}

} // verus!
