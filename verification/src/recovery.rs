//! Public-key recovery: reconstructing the signer's key from a recoverable
//! signature and a message digest.
//!
//! Given `(r, s, id)` and the digest scalar `z`, the signer's key is the
//! point `Q = u1·G + u2·R`, where `R` is the curve point whose x-coordinate
//! is `r` and whose y-root parity the identifier names, `u1 = -(r⁻¹·z)` and
//! `u2 = r⁻¹·s` mod the order. This solves the verification equation for
//! the unknown key instead of checking it against a known one.

use vstd::prelude::*;
use sha3::{Digest, Keccak256};
use crate::bytes::{be_val, be_lt, bytes_eq, copy_range, lemma_be_val_parity};
use crate::bigmod::{mod_add, mod_mul, mod_sub, mod_reduce};
use crate::consts::{field_prime, curve_order, gen_x, gen_y, field_prime_bytes, curve_order_bytes,
    curve_b_bytes, order_inv_exponent_bytes, zero_bytes};
use crate::errors::Error;
use crate::field::{inv_val, inv_check, sqrt_check, try_invert, try_sqrt, ct_select};
use crate::point::{PointVal, AffinePoint, fp_mul, curve_rhs, pt_add, pt_mul, point_mul, point_add,
    generator, encode_compressed, lemma_neg_root, chosen_root, mul_steps_check, add_check};
use crate::consts::{sqrt_exponent, order_inv_exponent};
use crate::bytes::lemma_be_val_injective;
use crate::sig::{Signature, PlainSignature, Id, sig_r, sig_s, low_s};

verus! {

/// Multiplication mod the curve order.
pub open spec fn sn_mul(a: nat, b: nat) -> nat {
    (a * b) % curve_order()
}

/// Negation mod the curve order.
pub open spec fn sn_neg(a: nat) -> nat {
    (((0 + curve_order()) - a) % (curve_order() as int)) as nat
}

/// The inverse mod the curve order, where one exists.
pub open spec fn sn_inv(a: nat) -> nat {
    inv_val(a, curve_order())
}

/// A digest read as a big-endian integer and reduced mod the order.
pub open spec fn digest_scalar(d: Seq<u8>) -> nat {
    be_val(d) % curve_order()
}

/// The key determined by `(r, s, z)` and a chosen y-root `y` for `R`:
/// `u1·G + u2·R` with `u1 = -(r⁻¹·z)` and `u2 = r⁻¹·s`.
pub open spec fn recovery_combination(r: nat, s: nat, z: nat, y: nat) -> PointVal {
    let rinv = sn_inv(r);
    let u1 = sn_neg(sn_mul(rinv, z));
    let u2 = sn_mul(rinv, s);
    pt_add(
        pt_mul(u1, PointVal::At { x: gen_x(), y: gen_y() }),
        pt_mul(u2, PointVal::At { x: r, y: y }),
    )
}

/// `pk` is byte-for-byte the compressed encoding of the finite point `q`.
pub open spec fn encodes(pk: Seq<u8>, q: PointVal) -> bool {
    q matches PointVal::At { x, y } && pk.len() == 33 && pk[0] == (if y % 2 == 1 {
        3u8
    } else {
        2u8
    }) && be_val(pk.subrange(1, 33)) == x
}

/// Two compressed encodings of the same finite point are the same bytes.
proof fn lemma_encoding_unique(a: Seq<u8>, b: Seq<u8>, q: PointVal)
    requires
        encodes(a, q),
        encodes(b, q),
    ensures
        a =~= b,
{
    lemma_be_val_injective(a.subrange(1, 33), b.subrange(1, 33));
    assert forall|idx: int| 0 <= idx < 33 implies a[idx] == b[idx] by {
        if idx >= 1 {
            assert(a[idx] == a.subrange(1, 33)[idx - 1]);
            assert(b[idx] == b.subrange(1, 33)[idx - 1]);
        }
    }
}

/// `pk` is the compressed encoding of the key recovered from `(r, s, z)`
/// through some y-root of the curve polynomial at `r` whose parity the
/// identifier (`id_odd`) names.
pub open spec fn recovered_key(r: nat, s: nat, id_odd: bool, z: nat, pk: Seq<u8>) -> bool {
    exists|y: nat|
        {
            &&& y < field_prime()
            &&& #[trigger] fp_mul(y, y) == curve_rhs(r)
            &&& (y != 0 ==> (y % 2 == 1) == id_odd)
            &&& encodes(pk, recovery_combination(r, s, z, y))
        }
}

/// The success condition of recovery from `(r, s, z, id)`: the root
/// search at `r`, the inversion of `r`, the two scalar multiplications
/// and the final addition all pass their checks, and the combination is
/// not the point at infinity. For honest inputs the checks always pass,
/// so this reduces to: `r` is an on-curve x-coordinate and the
/// combination is finite.
pub open spec fn recovery_checks(r: nat, s: nat, z: nat, id_odd: bool) -> bool {
    let y = chosen_root(curve_rhs(r), id_odd);
    let rinv = sn_inv(r);
    let u1 = sn_neg(sn_mul(rinv, z));
    let u2 = sn_mul(rinv, s);
    let gen = PointVal::At { x: gen_x(), y: gen_y() };
    let big_r = PointVal::At { x: r, y: y };
    &&& sqrt_check(curve_rhs(r))
    &&& inv_check(r, order_inv_exponent(), curve_order())
    &&& mul_steps_check(256, u1, gen, PointVal::Infinity)
    &&& mul_steps_check(256, u2, big_r, PointVal::Infinity)
    &&& add_check(pt_mul(u1, gen), pt_mul(u2, big_r))
    &&& !(recovery_combination(r, s, z, y) is Infinity)
}

/// Relies on `sha3::Keccak256`: a fixed 32-byte digest that depends on the
/// message content alone.
#[verifier::external_body]
pub fn keccak256(msg: &[u8]) -> (r: Vec<u8>)
    ensures
        r@ == keccak256_of(msg@),
        r@.len() == 32,
{
    Keccak256::digest(msg).to_vec()
}

pub uninterp spec fn keccak256_of(msg: Seq<u8>) -> Seq<u8>;

/// Trial recovery is owed success for the identifier `id_odd`: recovery
/// from `(r, s, z, id)` passes all its checks and its result encodes to
/// exactly the given key bytes.
pub open spec fn trial_matches(r: nat, s: nat, z: nat, id_odd: bool, pk: Seq<u8>) -> bool {
    &&& recovery_checks(r, s, z, id_odd)
    &&& encodes(pk, recovery_combination(r, s, z, chosen_root(curve_rhs(r), id_odd)))
}

impl Signature {
    /// Recover the signer's public key from this signature and a 32-byte
    /// message digest, as a compressed point encoding.
    ///
    /// Succeeds exactly when [`recovery_checks`] holds — the root search
    /// at `r`, the inversions and the point arithmetic all pass their
    /// checks and the combination is finite — and then returns precisely
    /// the encoding of the combination through the selected root.
    pub fn recover_public_key_from_prehash(&self, prehash: &[u8]) -> (res: Result<Vec<u8>, Error>)
        requires
            self.wf(),
            prehash@.len() == 32,
        ensures
            (res is Ok) == recovery_checks(
                sig_r(self@.subrange(0, 64)),
                sig_s(self@.subrange(0, 64)),
                digest_scalar(prehash@),
                self@[64] == 1,
            ),
            res matches Ok(pk) ==> pk@.len() == 33 && encodes(
                pk@,
                recovery_combination(
                    sig_r(self@.subrange(0, 64)),
                    sig_s(self@.subrange(0, 64)),
                    digest_scalar(prehash@),
                    chosen_root(curve_rhs(sig_r(self@.subrange(0, 64))), self@[64] == 1),
                ),
            ) && recovered_key(
                sig_r(self@.subrange(0, 64)),
                sig_s(self@.subrange(0, 64)),
                self@[64] == 1,
                digest_scalar(prehash@),
                pk@,
            ),
            res matches Err(e) ==> e == Error::PointRecoveryFailed,
    {
        let ghost rv = sig_r(self@.subrange(0, 64));
        let ghost sv = sig_s(self@.subrange(0, 64));
        let ghost zv = digest_scalar(prehash@);
        let ghost idodd = self@[64] == 1;
        let rb = copy_range(self.bytes.as_slice(), 0, 32);
        let sb = copy_range(self.bytes.as_slice(), 32, 64);
        proof {
            assert(self@.subrange(0, 64).subrange(0, 32) =~= self@.subrange(0, 32));
            assert(self@.subrange(0, 64).subrange(32, 64) =~= self@.subrange(32, 64));
        }
        let nb = curve_order_bytes();
        let pbb = field_prime_bytes();
        let dv = vstd::slice::slice_to_vec(prehash);
        let z = mod_reduce(&dv, &nb);
        if !be_lt(rb.as_slice(), pbb.as_slice()) {
            // defensive: unreachable, since a canonical r is below the
            // order, which is below the field prime
            proof {
                assert(curve_order() < field_prime());
                assert(false);
            }
            return Err(Error::PointRecoveryFailed);
        }
        let x2 = mod_mul(&rb, &rb, &pbb);
        let x3 = mod_mul(&x2, &rb, &pbb);
        let bb = curve_b_bytes();
        let alpha = mod_add(&x3, &bb, &pbb);
        let beta = match try_sqrt(&alpha) {
            Some(b) => b,
            None => {
                return Err(Error::PointRecoveryFailed);
            },
        };
        let zero = zero_bytes();
        let neg = mod_sub(&zero, &beta, &pbb);
        let last = *vstd::slice::slice_index_get(beta.as_slice(), 31);
        let beta_odd = (last & 1) == 1;
        let idb = *vstd::slice::slice_index_get(self.bytes.as_slice(), 64);
        let want_odd = idb == 1;
        let y = ct_select(beta_odd == want_odd, &beta, &neg);
        proof {
            assert((last & 1) == last % 2) by (bit_vector);
            assert(beta@.last() == beta@[31]);
            lemma_be_val_parity(beta@);
            lemma_neg_root(be_val(beta@));
            assert(want_odd == idodd);
            assert(be_val(y@) == chosen_root(curve_rhs(rv), idodd));
        }
        let xb = copy_range(rb.as_slice(), 0, 32);
        proof {
            assert(rb@.subrange(0, 32) =~= rb@);
        }
        let bigr = AffinePoint::Xy { x: xb, y };
        let e = order_inv_exponent_bytes();
        let rinv = match try_invert(&rb, &nb, &e) {
            Some(v) => v,
            None => {
                return Err(Error::PointRecoveryFailed);
            },
        };
        let t = mod_mul(&rinv, &z, &nb);
        let u1 = mod_sub(&zero, &t, &nb);
        let u2 = mod_mul(&rinv, &sb, &nb);
        let g = generator();
        let p1 = match point_mul(&u1, &g) {
            Some(v) => v,
            None => {
                return Err(Error::PointRecoveryFailed);
            },
        };
        let p2 = match point_mul(&u2, &bigr) {
            Some(v) => v,
            None => {
                return Err(Error::PointRecoveryFailed);
            },
        };
        let q = match point_add(&p1, &p2) {
            Some(v) => v,
            None => {
                return Err(Error::PointRecoveryFailed);
            },
        };
        let enc = match encode_compressed(&q) {
            Some(v) => v,
            None => {
                // the combination came out as the point at infinity
                return Err(Error::PointRecoveryFailed);
            },
        };
        proof {
            let yv = be_val(y@);
            assert(q.model() == recovery_combination(rv, sv, zv, yv));
            assert(yv < field_prime() && fp_mul(yv, yv) == curve_rhs(rv) && (yv != 0 ==> (yv % 2
                == 1) == (self@[64] == 1)));
            assert(recovered_key(rv, sv, self@[64] == 1, zv, enc@));
        }
        Ok(enc)
    }

    /// Recover the signer's public key from this signature and the message
    /// itself, which is digested with Keccak-256; otherwise exactly as
    /// recovery from the digest.
    pub fn recover_public_key(&self, msg: &[u8]) -> (res: Result<Vec<u8>, Error>)
        requires
            self.wf(),
        ensures
            (res is Ok) == recovery_checks(
                sig_r(self@.subrange(0, 64)),
                sig_s(self@.subrange(0, 64)),
                digest_scalar(keccak256_of(msg@)),
                self@[64] == 1,
            ),
            res matches Ok(pk) ==> pk@.len() == 33 && recovered_key(
                sig_r(self@.subrange(0, 64)),
                sig_s(self@.subrange(0, 64)),
                self@[64] == 1,
                digest_scalar(keccak256_of(msg@)),
                pk@,
            ),
            res matches Err(e) ==> e == Error::PointRecoveryFailed,
    {
        let d = keccak256(msg);
        self.recover_public_key_from_prehash(d.as_slice())
    }

    /// Search both recovery identifiers for the one under which the given
    /// digest and signature recover exactly the given public key; the
    /// signature's `s` is first replaced by its low representative.
    ///
    /// Succeeds whenever either identifier's recovery passes its checks
    /// and encodes to exactly the given key bytes; fails with
    /// `RecoveryFailed` when neither candidate matches.
    pub fn from_trial_recovery(public_key: &[u8], digest: &[u8], signature: &PlainSignature) -> (res:
        Result<Signature, Error>)
        requires
            signature.wf(),
            digest@.len() == 32,
        ensures
            res matches Ok(rs) ==> {
                &&& rs.wf()
                &&& sig_r(rs@.subrange(0, 64)) == sig_r(signature@)
                &&& sig_s(rs@.subrange(0, 64)) == low_s(sig_s(signature@))
                &&& (rs@[64] == 0 || rs@[64] == 1)
                &&& recovered_key(
                    sig_r(signature@),
                    low_s(sig_s(signature@)),
                    rs@[64] == 1,
                    digest_scalar(digest@),
                    public_key@,
                )
            },
            (trial_matches(sig_r(signature@), low_s(sig_s(signature@)), digest_scalar(digest@),
                false, public_key@) || trial_matches(sig_r(signature@), low_s(sig_s(signature@)),
                digest_scalar(digest@), true, public_key@)) ==> res is Ok,
            res matches Err(e) ==> e == Error::RecoveryFailed,
    {
        let ghost rv = sig_r(signature@);
        let ghost sv = low_s(sig_s(signature@));
        let ghost zv = digest_scalar(digest@);
        let norm = signature.normalize_s();
        let cand0 = match Signature::new(&norm, Id { value: 0 }) {
            Ok(s) => s,
            Err(_) => {
                return Err(Error::RecoveryFailed);
            },
        };
        proof {
            assert(cand0@.subrange(0, 64) =~= norm@);
        }
        match cand0.recover_public_key_from_prehash(digest) {
            Ok(pk) => {
                if bytes_eq(pk.as_slice(), public_key) {
                    return Ok(cand0);
                }
                proof {
                    if trial_matches(rv, sv, zv, false, public_key@) {
                        lemma_encoding_unique(
                            pk@,
                            public_key@,
                            recovery_combination(rv, sv, zv, chosen_root(curve_rhs(rv), false)),
                        );
                    }
                }
            },
            Err(_) => {},
        }
        let cand1 = match Signature::new(&norm, Id { value: 1 }) {
            Ok(s) => s,
            Err(_) => {
                return Err(Error::RecoveryFailed);
            },
        };
        proof {
            assert(cand1@.subrange(0, 64) =~= norm@);
        }
        match cand1.recover_public_key_from_prehash(digest) {
            Ok(pk) => {
                if bytes_eq(pk.as_slice(), public_key) {
                    return Ok(cand1);
                }
                proof {
                    if trial_matches(rv, sv, zv, true, public_key@) {
                        lemma_encoding_unique(
                            pk@,
                            public_key@,
                            recovery_combination(rv, sv, zv, chosen_root(curve_rhs(rv), true)),
                        );
                    }
                }
            },
            Err(_) => {},
        }
        Err(Error::RecoveryFailed)
    }
}

} // verus!
