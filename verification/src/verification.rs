//! Signature verification against a known public key.
//!
//! The verifier decodes the key once, enforces the canonical low-S form,
//! and checks the primitive verification equation. A recoverable signature
//! is verified by dropping its identifier: verification needs no
//! disambiguation of the y-root.

use vstd::prelude::*;
use crate::bytes::{be_val, bytes_eq, copy_range, lemma_be_val_injective};
use crate::bigmod::{mod_mul, mod_reduce};
use crate::consts::{curve_order, half_order, gen_x, gen_y, curve_order_bytes,
    order_inv_exponent, order_inv_exponent_bytes};
use crate::errors::Error;
use crate::field::{try_invert, inv_check};
use crate::point::{PointVal, AffinePoint, pt_add, pt_mul, pt_on_curve, point_mul, point_add,
    generator, decode_point, decoded_point, valid_uncompressed, valid_compressed,
    mul_steps_check, add_check};
use crate::recovery::{sn_mul, sn_inv, digest_scalar, keccak256, keccak256_of};
use crate::sig::{PlainSignature, Signature, sig_r, sig_s};

verus! {

/// The ECDSA verification equation for key `q`, signature `(r, s)` and
/// digest scalar `z`: the point `(z·s⁻¹)·G + (r·s⁻¹)·q` is finite and its
/// x-coordinate, reduced mod the order, equals `r`.
pub open spec fn verification_equation(q: PointVal, r: nat, s: nat, z: nat) -> bool {
    let si = sn_inv(s);
    let u1 = sn_mul(z, si);
    let u2 = sn_mul(r, si);
    match pt_add(pt_mul(u1, PointVal::At { x: gen_x(), y: gen_y() }), pt_mul(u2, q)) {
        PointVal::Infinity => false,
        PointVal::At { x, y } => x % curve_order() == r,
    }
}

/// The checked steps of verification for key `q`, signature `(r, s)` and
/// digest scalar `z`: the inversion of `s`, the two scalar
/// multiplications and the final addition all pass their checks. For
/// honest inputs they always do.
pub open spec fn verification_checks(q: PointVal, r: nat, s: nat, z: nat) -> bool {
    let si = sn_inv(s);
    let u1 = sn_mul(z, si);
    let u2 = sn_mul(r, si);
    let gen = PointVal::At { x: gen_x(), y: gen_y() };
    &&& inv_check(s, order_inv_exponent(), curve_order())
    &&& mul_steps_check(256, u1, gen, PointVal::Infinity)
    &&& mul_steps_check(256, u2, q, PointVal::Infinity)
    &&& add_check(pt_mul(u1, gen), pt_mul(u2, q))
}

impl AffinePoint {
    /// Check a plain signature against this public-key point and a
    /// 32-byte digest.
    ///
    /// Acceptance is exact: the signature is accepted iff `s` is low,
    /// the checked steps pass, and the verification equation holds. A
    /// high `s` is rejected as such, a `SignatureMismatch` means the
    /// equation provably fails, and `VerificationFailed` covers the
    /// combination coming out as infinity and failed inverse checks.
    pub fn verify_prehashed(&self, prehash: &[u8], signature: &PlainSignature) -> (res: Result<
        (),
        Error,
    >)
        requires
            self.wf(),
            signature.wf(),
            prehash@.len() == 32,
        ensures
            (res is Ok) == (sig_s(signature@) <= half_order() && verification_checks(
                self.model(),
                sig_r(signature@),
                sig_s(signature@),
                digest_scalar(prehash@),
            ) && verification_equation(
                self.model(),
                sig_r(signature@),
                sig_s(signature@),
                digest_scalar(prehash@),
            )),
            (res == Err::<(), Error>(Error::HighSRejected)) == (sig_s(signature@) > half_order()),
            res == Err::<(), Error>(Error::SignatureMismatch) ==> !verification_equation(
                self.model(),
                sig_r(signature@),
                sig_s(signature@),
                digest_scalar(prehash@),
            ),
            res matches Err(e) ==> (e == Error::HighSRejected || e == Error::SignatureMismatch
                || e == Error::VerificationFailed),
    {
        let ghost rv = sig_r(signature@);
        let ghost sv = sig_s(signature@);
        let ghost zv = digest_scalar(prehash@);
        if signature.is_s_high() {
            return Err(Error::HighSRejected);
        }
        let rb = copy_range(signature.as_bytes().as_slice(), 0, 32);
        let sb = copy_range(signature.as_bytes().as_slice(), 32, 64);
        let nb = curve_order_bytes();
        let dv = vstd::slice::slice_to_vec(prehash);
        let z = mod_reduce(&dv, &nb);
        let e = order_inv_exponent_bytes();
        let sinv = match try_invert(&sb, &nb, &e) {
            Some(v) => v,
            None => {
                return Err(Error::VerificationFailed);
            },
        };
        let u1 = mod_mul(&z, &sinv, &nb);
        let u2 = mod_mul(&rb, &sinv, &nb);
        let g = generator();
        let p1 = match point_mul(&u1, &g) {
            Some(v) => v,
            None => {
                return Err(Error::VerificationFailed);
            },
        };
        let p2 = match point_mul(&u2, self) {
            Some(v) => v,
            None => {
                return Err(Error::VerificationFailed);
            },
        };
        let sum = match point_add(&p1, &p2) {
            Some(v) => v,
            None => {
                return Err(Error::VerificationFailed);
            },
        };
        match sum {
            AffinePoint::Infinity => Err(Error::VerificationFailed),
            AffinePoint::Xy { x, y } => {
                let xr = mod_reduce(&x, &nb);
                if bytes_eq(xr.as_slice(), rb.as_slice()) {
                    Ok(())
                } else {
                    proof {
                        if be_val(x@) % curve_order() == sig_r(signature@) {
                            lemma_be_val_injective(xr@, rb@);
                        }
                    }
                    Err(Error::SignatureMismatch)
                }
            },
        }
    }
}

/// A verifier holding one decoded, validated public-key point.
#[derive(Debug)]
pub struct Verifier {
    pub point: AffinePoint,
}

impl Verifier {
    /// The key point is canonical and lies on the curve.
    pub open spec fn wf(&self) -> bool {
        self.point.wf() && pt_on_curve(self.point.model())
    }

    /// The public key this verifier checks against.
    pub open spec fn key(&self) -> PointVal {
        self.point.model()
    }

    /// Decode and validate a SEC1-encoded public key: accepted exactly
    /// when the encoding is a valid compressed or uncompressed point on
    /// the curve, and the verifier then holds exactly the decoded point.
    pub fn new(public_key: &[u8]) -> (res: Result<Verifier, Error>)
        ensures
            (res is Ok) == (valid_compressed(public_key@) || valid_uncompressed(public_key@)),
            res matches Ok(v) ==> v.wf() && v.key() == decoded_point(public_key@),
            res matches Err(e) ==> e == Error::InvalidPublicKey,
    {
        match decode_point(public_key) {
            Ok(pt) => Ok(Verifier { point: pt }),
            Err(e) => Err(e),
        }
    }

    /// Verify a plain signature over a message digested with Keccak-256.
    pub fn verify(&self, msg: &[u8], signature: &PlainSignature) -> (res: Result<(), Error>)
        requires
            self.wf(),
            signature.wf(),
        ensures
            (res is Ok) == (sig_s(signature@) <= half_order() && verification_checks(
                self.key(),
                sig_r(signature@),
                sig_s(signature@),
                digest_scalar(keccak256_of(msg@)),
            ) && verification_equation(
                self.key(),
                sig_r(signature@),
                sig_s(signature@),
                digest_scalar(keccak256_of(msg@)),
            )),
            (res == Err::<(), Error>(Error::HighSRejected)) == (sig_s(signature@) > half_order()),
            res == Err::<(), Error>(Error::SignatureMismatch) ==> !verification_equation(
                self.key(),
                sig_r(signature@),
                sig_s(signature@),
                digest_scalar(keccak256_of(msg@)),
            ),
            res matches Err(e) ==> (e == Error::HighSRejected || e == Error::SignatureMismatch
                || e == Error::VerificationFailed),
    {
        let d = keccak256(msg);
        self.point.verify_prehashed(d.as_slice(), signature)
    }

    /// Verify a recoverable signature likewise; its identifier is
    /// discarded, since verification needs no disambiguation.
    pub fn verify_recoverable(&self, msg: &[u8], signature: &Signature) -> (res: Result<(), Error>)
        requires
            self.wf(),
            signature.wf(),
        ensures
            (res is Ok) == (sig_s(signature@.subrange(0, 64)) <= half_order()
                && verification_checks(
                self.key(),
                sig_r(signature@.subrange(0, 64)),
                sig_s(signature@.subrange(0, 64)),
                digest_scalar(keccak256_of(msg@)),
            ) && verification_equation(
                self.key(),
                sig_r(signature@.subrange(0, 64)),
                sig_s(signature@.subrange(0, 64)),
                digest_scalar(keccak256_of(msg@)),
            )),
            (res == Err::<(), Error>(Error::HighSRejected)) == (sig_s(signature@.subrange(0, 64))
                > half_order()),
            res == Err::<(), Error>(Error::SignatureMismatch) ==> !verification_equation(
                self.key(),
                sig_r(signature@.subrange(0, 64)),
                sig_s(signature@.subrange(0, 64)),
                digest_scalar(keccak256_of(msg@)),
            ),
            res matches Err(e) ==> (e == Error::HighSRejected || e == Error::SignatureMismatch
                || e == Error::VerificationFailed),
    {
        let plain = signature.to_plain();
        self.verify(msg, &plain)
    }
}

} // verus!
