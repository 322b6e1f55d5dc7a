//! Points of the secp256k1 curve and the group operations on them.
//!
//! The specification-level model is [`PointVal`], a coordinate pair of
//! numbers mod p (or the point at infinity), with the textbook affine
//! chord-and-tangent formulas as the group law. Scalar multiplication is
//! specified by the binary expansion of the scalar, which is also how the
//! executable code computes it.
//!
//! The executable operations work on 32-byte coordinates and call the
//! modular arithmetic; every inverse they use is checked by a
//! multiplication, so a `None` from an operation means such a check failed
//! (which, for the secp256k1 prime, does not happen on reachable inputs),
//! never a silently wrong point.

use vstd::prelude::*;
use vstd::arithmetic::mul::*;
use vstd::arithmetic::div_mod::*;
use crate::bytes::{be_val, bytes_eq, copy_range, be_lt, lemma_be_val_injective, lemma_be_val_parity};
use crate::bigmod::{mod_add, mod_sub, mod_mul};
use crate::consts::{field_prime, field_prime_bytes, prime_inv_exponent_bytes, zero_bytes, curve_b,
    curve_b_bytes, gen_x, gen_y, gen_x_bytes, gen_y_bytes};
use crate::errors::Error;
use crate::field::{inv_val, inv_check, sqrt_check, try_invert, try_sqrt, ct_select};
use crate::bigmod::pow_mod;
use crate::consts::{sqrt_exponent, prime_inv_exponent};

verus! {

/// A curve point as a mathematical object: coordinates mod p, or infinity.
pub enum PointVal {
    Infinity,
    At { x: nat, y: nat },
}

/// Addition mod p.
pub open spec fn fp_add(a: nat, b: nat) -> nat {
    (a + b) % field_prime()
}

/// Subtraction mod p.
pub open spec fn fp_sub(a: nat, b: nat) -> nat {
    (((a + field_prime()) - b) % (field_prime() as int)) as nat
}

/// Negation mod p.
pub open spec fn fp_neg(a: nat) -> nat {
    fp_sub(0, a)
}

/// Multiplication mod p.
pub open spec fn fp_mul(a: nat, b: nat) -> nat {
    (a * b) % field_prime()
}

/// The inverse mod p, where one exists.
pub open spec fn fp_inv(a: nat) -> nat {
    inv_val(a, field_prime())
}

/// The right-hand side of the curve equation: `x^3 + 7` mod p.
pub open spec fn curve_rhs(x: nat) -> nat {
    fp_add(fp_mul(fp_mul(x, x), x), curve_b())
}

/// Whether a model point lies on the curve (infinity does not count).
pub open spec fn pt_on_curve(p: PointVal) -> bool {
    match p {
        PointVal::Infinity => false,
        PointVal::At { x, y } => x < field_prime() && y < field_prime() && fp_mul(y, y)
            == curve_rhs(x),
    }
}

/// The tangent rule: doubling a point.
pub open spec fn pt_double(p: PointVal) -> PointVal {
    match p {
        PointVal::Infinity => PointVal::Infinity,
        PointVal::At { x, y } => {
            if y == 0 {
                PointVal::Infinity
            } else {
                let x2 = fp_mul(x, x);
                let lam = fp_mul(fp_add(fp_add(x2, x2), x2), fp_inv(fp_add(y, y)));
                let x3 = fp_sub(fp_sub(fp_mul(lam, lam), x), x);
                let y3 = fp_sub(fp_mul(lam, fp_sub(x, x3)), y);
                PointVal::At { x: x3, y: y3 }
            }
        },
    }
}

/// The chord rule: adding two points.
pub open spec fn pt_add(p: PointVal, q: PointVal) -> PointVal {
    match (p, q) {
        (PointVal::Infinity, _) => q,
        (_, PointVal::Infinity) => p,
        (PointVal::At { x: x1, y: y1 }, PointVal::At { x: x2, y: y2 }) => {
            if x1 == x2 {
                if y1 == fp_neg(y2) {
                    PointVal::Infinity
                } else {
                    pt_double(p)
                }
            } else {
                let lam = fp_mul(fp_sub(y2, y1), fp_inv(fp_sub(x2, x1)));
                let x3 = fp_sub(fp_sub(fp_mul(lam, lam), x1), x2);
                let y3 = fp_sub(fp_mul(lam, fp_sub(x1, x3)), y1);
                PointVal::At { x: x3, y: y3 }
            }
        },
    }
}

/// Scalar multiplication by binary expansion, with an accumulator:
/// each step consumes the lowest bit of `k` and doubles the base.
pub open spec fn pt_mul_acc(k: nat, base: PointVal, acc: PointVal) -> PointVal
    decreases k,
{
    if k == 0 {
        acc
    } else {
        let acc2 = if k % 2 == 1 {
            pt_add(acc, base)
        } else {
            acc
        };
        pt_mul_acc(k / 2, pt_double(base), acc2)
    }
}

/// `k` times the point `p`.
pub open spec fn pt_mul(k: nat, p: PointVal) -> PointVal {
    pt_mul_acc(k, p, PointVal::Infinity)
}

/// An executable curve point: 32-byte big-endian coordinates, or infinity.
#[derive(Debug)]
pub enum AffinePoint {
    Infinity,
    Xy { x: Vec<u8>, y: Vec<u8> },
}

impl AffinePoint {
    /// Coordinates are 32 bytes and canonical (below the field prime).
    pub open spec fn wf(&self) -> bool {
        match *self {
            AffinePoint::Infinity => true,
            AffinePoint::Xy { x, y } => x@.len() == 32 && y@.len() == 32 && be_val(x@)
                < field_prime() && be_val(y@) < field_prime(),
        }
    }

    /// The mathematical point this value denotes.
    pub open spec fn model(&self) -> PointVal {
        match *self {
            AffinePoint::Infinity => PointVal::Infinity,
            AffinePoint::Xy { x, y } => PointVal::At { x: be_val(x@), y: be_val(y@) },
        }
    }

    pub open spec fn is_infinity(&self) -> bool {
        self.model() is Infinity
    }
}

/// A structural copy of a point.
pub fn copy_point(p: &AffinePoint) -> (r: AffinePoint)
    requires
        p.wf(),
    ensures
        r.wf(),
        r.model() == p.model(),
{
    match p {
        AffinePoint::Infinity => AffinePoint::Infinity,
        AffinePoint::Xy { x, y } => {
            let cx = copy_range(x.as_slice(), 0, 32);
            let cy = copy_range(y.as_slice(), 0, 32);
            proof {
                assert(x@.subrange(0, 32) =~= x@);
                assert(y@.subrange(0, 32) =~= y@);
            }
            AffinePoint::Xy { x: cx, y: cy }
        },
    }
}

/// The inverse-by-exponentiation check mod p succeeds for `a`.
pub open spec fn fp_inv_check(a: nat) -> bool {
    inv_check(a, prime_inv_exponent(), field_prime())
}

/// The success condition of [`point_double`]: the one inverse it needs
/// (of `2y`, when the point is finite with `y != 0`) passes its check.
pub open spec fn double_check(p: PointVal) -> bool {
    match p {
        PointVal::Infinity => true,
        PointVal::At { x, y } => y == 0 || fp_inv_check(fp_add(y, y)),
    }
}

/// The success condition of [`point_add`]: the one inverse the taken
/// branch needs passes its check.
pub open spec fn add_check(p: PointVal, q: PointVal) -> bool {
    match (p, q) {
        (PointVal::Infinity, _) => true,
        (_, PointVal::Infinity) => true,
        (PointVal::At { x: x1, y: y1 }, PointVal::At { x: x2, y: y2 }) => {
            if x1 == x2 {
                y1 == fp_neg(y2) || double_check(p)
            } else {
                fp_inv_check(fp_sub(x2, x1))
            }
        },
    }
}

/// Double a point: `Some` exactly when [`double_check`] holds.
pub fn point_double(p: &AffinePoint) -> (r: Option<AffinePoint>)
    requires
        p.wf(),
    ensures
        (r is Some) == double_check(p.model()),
        r matches Some(q) ==> q.wf() && q.model() == pt_double(p.model()),
{
    match p {
        AffinePoint::Infinity => Some(AffinePoint::Infinity),
        AffinePoint::Xy { x, y } => {
            let pb = field_prime_bytes();
            let zero = zero_bytes();
            let y_zero = bytes_eq(y.as_slice(), zero.as_slice());
            proof {
                if be_val(y@) == 0 {
                    lemma_be_val_injective(y@, zero@);
                }
            }
            if y_zero {
                return Some(AffinePoint::Infinity);
            }
            let x2 = mod_mul(x, x, &pb);
            let t = mod_add(&x2, &x2, &pb);
            let t3 = mod_add(&t, &x2, &pb);
            let dy = mod_add(y, y, &pb);
            let e = prime_inv_exponent_bytes();
            let dinv = match try_invert(&dy, &pb, &e) {
                Some(v) => v,
                None => {
                    return None;
                },
            };
            let lam = mod_mul(&t3, &dinv, &pb);
            let l2 = mod_mul(&lam, &lam, &pb);
            let u = mod_sub(&l2, x, &pb);
            let x3 = mod_sub(&u, x, &pb);
            let w = mod_sub(x, &x3, &pb);
            let v = mod_mul(&lam, &w, &pb);
            let y3 = mod_sub(&v, y, &pb);
            Some(AffinePoint::Xy { x: x3, y: y3 })
        },
    }
}

/// Add two points: `Some` exactly when [`add_check`] holds.
pub fn point_add(p: &AffinePoint, q: &AffinePoint) -> (r: Option<AffinePoint>)
    requires
        p.wf(),
        q.wf(),
    ensures
        (r is Some) == add_check(p.model(), q.model()),
        r matches Some(s) ==> s.wf() && s.model() == pt_add(p.model(), q.model()),
{
    match (p, q) {
        (AffinePoint::Infinity, _) => Some(copy_point(q)),
        (_, AffinePoint::Infinity) => Some(copy_point(p)),
        (AffinePoint::Xy { x: x1, y: y1 }, AffinePoint::Xy { x: x2, y: y2 }) => {
            let pb = field_prime_bytes();
            if bytes_eq(x1.as_slice(), x2.as_slice()) {
                proof {
                    assert(be_val(x1@) == be_val(x2@));
                }
                let zero = zero_bytes();
                let neg_y2 = mod_sub(&zero, y2, &pb);
                if bytes_eq(y1.as_slice(), neg_y2.as_slice()) {
                    Some(AffinePoint::Infinity)
                } else {
                    proof {
                        if be_val(y1@) == fp_neg(be_val(y2@)) {
                            lemma_be_val_injective(y1@, neg_y2@);
                        }
                    }
                    point_double(p)
                }
            } else {
                proof {
                    if be_val(x1@) == be_val(x2@) {
                        lemma_be_val_injective(x1@, x2@);
                    }
                }
                let dx = mod_sub(x2, x1, &pb);
                let dy = mod_sub(y2, y1, &pb);
                let e = prime_inv_exponent_bytes();
                let dinv = match try_invert(&dx, &pb, &e) {
                    Some(v) => v,
                    None => {
                        return None;
                    },
                };
                let lam = mod_mul(&dy, &dinv, &pb);
                let l2 = mod_mul(&lam, &lam, &pb);
                let u = mod_sub(&l2, x1, &pb);
                let x3 = mod_sub(&u, x2, &pb);
                let w = mod_sub(x1, &x3, &pb);
                let v = mod_mul(&lam, &w, &pb);
                let y3 = mod_sub(&v, y1, &pb);
                Some(AffinePoint::Xy { x: x3, y: y3 })
            }
        },
    }
}

/// Two to the power `t`.
pub open spec fn two_pow(t: nat) -> nat
    decreases t,
{
    if t == 0 {
        1
    } else {
        2 * two_pow((t - 1) as nat)
    }
}

/// The success condition of [`point_mul`] over its fixed `steps`
/// iterations: at each step, the addition taken for a set bit and the
/// unconditional doubling both pass their checks.
pub open spec fn mul_steps_check(steps: nat, k: nat, base: PointVal, acc: PointVal) -> bool
    decreases steps,
{
    if steps == 0 {
        true
    } else {
        let bit = k % 2 == 1;
        let acc2 = if bit {
            pt_add(acc, base)
        } else {
            acc
        };
        &&& (bit ==> add_check(acc, base))
        &&& double_check(base)
        &&& mul_steps_check((steps - 1) as nat, k / 2, pt_double(base), acc2)
    }
}

/// Multiply a point by a 32-byte scalar, lowest bit first, one doubling per
/// bit. The loop runs over all 256 bits regardless of the scalar's value:
/// `Some` exactly when [`mul_steps_check`] holds for those 256 steps.
pub fn point_mul(k: &Vec<u8>, p: &AffinePoint) -> (r: Option<AffinePoint>)
    requires
        p.wf(),
        k@.len() == 32,
    ensures
        (r is Some) == mul_steps_check(256, be_val(k@), p.model(), PointVal::Infinity),
        r matches Some(q) ==> q.wf() && q.model() == pt_mul(be_val(k@), p.model()),
{
    let ghost kv = be_val(k@);
    let ghost pm = p.model();
    let mut acc = AffinePoint::Infinity;
    let mut base = copy_point(p);
    let mut i: usize = 32;
    proof {
        assert(k@.subrange(0, 32) =~= k@);
    }
    while i > 0
        invariant
            0 <= i <= 32,
            k@.len() == 32,
            kv == be_val(k@),
            pm == p.model(),
            acc.wf(),
            base.wf(),
            pt_mul(kv, pm) == pt_mul_acc(
                be_val(k@.subrange(0, i as int)),
                base.model(),
                acc.model(),
            ),
            mul_steps_check(256, kv, pm, PointVal::Infinity) == mul_steps_check(
                (8 * i) as nat,
                be_val(k@.subrange(0, i as int)),
                base.model(),
                acc.model(),
            ),
        decreases i,
    {
        let byte: u8 = *vstd::slice::slice_index_get(k.as_slice(), i - 1);
        let ghost pre = be_val(k@.subrange(0, i - 1));
        proof {
            assert(k@.subrange(0, i as int).drop_last() =~= k@.subrange(0, i - 1));
            assert(k@.subrange(0, i as int).last() == k@[i - 1]);
            assert(be_val(k@.subrange(0, i as int)) == pre * 256 + byte);
        }
        let mut cur: u8 = byte;
        let mut j: usize = 0;
        let ghost mut rem = (pre * 256 + byte) as nat;
        proof {
            assert(two_pow(0) == 1);
            assert(two_pow(1) == 2);
            assert(two_pow(2) == 4);
            assert(two_pow(3) == 8);
            assert(two_pow(4) == 16);
            assert(two_pow(5) == 32);
            assert(two_pow(6) == 64);
            assert(two_pow(7) == 128);
            assert(two_pow(8) == 256);
        }
        while j < 8
            invariant
                0 <= j <= 8,
                kv == be_val(k@),
                pm == p.model(),
                acc.wf(),
                base.wf(),
                i >= 1,
                rem == pre * two_pow((8 - j) as nat) + cur,
                cur < two_pow((8 - j) as nat),
                pt_mul(kv, pm) == pt_mul_acc(rem, base.model(), acc.model()),
                mul_steps_check(256, kv, pm, PointVal::Infinity) == mul_steps_check(
                    (8 * (i - 1) + (8 - j)) as nat,
                    rem,
                    base.model(),
                    acc.model(),
                ),
            decreases 8 - j,
        {
            let ghost w = two_pow((8 - j) as nat);
            let ghost hw = two_pow((7 - j) as nat);
            proof {
                assert(w == 2 * hw);
                assert((cur & 1) == cur % 2) by (bit_vector);
                assert((cur >> 1) == cur / 2) by (bit_vector);
                assert(pre * w == (pre * hw) * 2) by {
                    lemma_mul_is_associative(pre as int, hw as int, 2);
                    lemma_mul_is_commutative(hw as int, 2);
                }
                assert(rem % 2 == cur % 2) by {
                    lemma_mod_multiples_vanish((pre * hw) as int, cur as int, 2);
                }
                assert(rem / 2 == pre * hw + cur / 2) by {
                    lemma_hoist_over_denominator(cur as int, (pre * hw) as int, 2);
                }
                assert(cur / 2 < hw) by {
                    lemma_div_is_ordered(cur as int, w - 1, 2);
                    lemma_fundamental_div_mod_converse(w - 1, 2, hw - 1, 1);
                }
            }
            let ghost steps_here = (8 * (i - 1) + (8 - j)) as nat;
            proof {
                assert(steps_here > 0);
            }
            let bit = cur & 1;
            if bit == 1 {
                let sum = match point_add(&acc, &base) {
                    Some(s) => s,
                    None => {
                        proof {
                            assert(!mul_steps_check(steps_here, rem, base.model(), acc.model()));
                        }
                        return None;
                    },
                };
                acc = sum;
            }
            let dbl = match point_double(&base) {
                Some(d) => d,
                None => {
                    proof {
                        assert(!mul_steps_check(steps_here, rem, base.model(), acc.model()));
                    }
                    return None;
                },
            };
            base = dbl;
            cur = cur >> 1;
            proof {
                rem = rem / 2;
            }
            j += 1;
        }
        proof {
            assert(two_pow(0) == 1);
            assert(cur == 0);
            assert(rem == pre * 1);
        }
        i -= 1;
    }
    proof {
        assert(k@.subrange(0, 0) =~= Seq::<u8>::empty());
        assert(be_val(k@.subrange(0, 0)) == 0);
    }
    Some(acc)
}

/// The generator point of secp256k1.
pub fn generator() -> (r: AffinePoint)
    ensures
        r.wf(),
        r.model() == (PointVal::At { x: gen_x(), y: gen_y() }),
{
    AffinePoint::Xy { x: gen_x_bytes(), y: gen_y_bytes() }
}

/// Negating a nonzero residue flips its parity; squaring ignores negation.
pub proof fn lemma_neg_root(b: nat)
    requires
        b < field_prime(),
    ensures
        fp_mul(fp_neg(b), fp_neg(b)) == fp_mul(b, b),
        b != 0 ==> fp_neg(b) == field_prime() - b,
        b != 0 ==> fp_neg(b) % 2 == 1 - (b % 2),
        b == 0 ==> fp_neg(b) == 0,
{
    let p = field_prime() as int;
    if b == 0 {
        assert(fp_neg(0) == (p % p) as nat);
        assert(p % p == 0) by {
            lemma_mod_self_0(p);
        }
    } else {
        let t = p - b;
        assert(0 <= t < p);
        assert(fp_neg(b) == (t % p) as nat);
        assert(t % p == t) by {
            lemma_small_mod((p - b) as nat, p as nat);
        }
        // squares agree mod p
        assert(t * t == p * (p - 2 * b) + (b * b) as int) by (nonlinear_arith)
            requires
                t == p - b,
        ;
        assert((p * (p - 2 * b) + (b * b) as int) % p == ((b * b) as int) % p) by {
            lemma_mod_multiples_vanish(p - 2 * b, (b * b) as int, p);
        }
        // parity flips, because p is odd
        assert(t % 2 == ((p % 2) - ((b as int) % 2)) % 2) by {
            lemma_sub_mod_noop(p, b as int, 2);
        }
        assert(p % 2 == 1);
        assert((b as int) % 2 == b % 2) by {
            lemma_small_mod((b % 2) as nat, 2);
            lemma_mod_twice(b as int, 2);
        }
    }
}

/// SEC1 compressed encoding of a finite point: one parity tag byte, then
/// the 32-byte x-coordinate. Infinity has no encoding and yields `None`.
pub fn encode_compressed(p: &AffinePoint) -> (r: Option<Vec<u8>>)
    requires
        p.wf(),
    ensures
        match r {
            Some(v) => p.model() matches PointVal::At { x, y } && v@.len() == 33 && v@[0] == (
            if y % 2 == 1 {
                3u8
            } else {
                2u8
            }) && be_val(v@.subrange(1, 33)) == x,
            None => p.is_infinity(),
        },
{
    match p {
        AffinePoint::Infinity => None,
        AffinePoint::Xy { x, y } => {
            let last = *vstd::slice::slice_index_get(y.as_slice(), 31);
            let odd = (last & 1) == 1;
            proof {
                assert((last & 1) == last % 2) by (bit_vector);
                assert(y@.last() == y@[31]);
                lemma_be_val_parity(y@);
            }
            let tag: u8 = if odd {
                3
            } else {
                2
            };
            let mut out: Vec<u8> = Vec::new();
            out.push(tag);
            let mut i: usize = 0;
            while i < 32
                invariant
                    0 <= i <= 32,
                    x@.len() == 32,
                    out@.len() == i + 1,
                    out@[0] == tag,
                    out@.subrange(1, i + 1) =~= x@.subrange(0, i as int),
                decreases 32 - i,
            {
                out.push(*vstd::slice::slice_index_get(x.as_slice(), i));
                proof {
                    assert(out@.subrange(1, i + 2) =~= x@.subrange(0, i + 1));
                }
                i += 1;
            }
            proof {
                assert(out@.subrange(1, 33) =~= x@);
            }
            Some(out)
        },
    }
}

/// Whether a 65-byte string is a valid uncompressed point encoding:
/// the `04` tag, then canonical coordinates satisfying the curve equation.
pub open spec fn valid_uncompressed(s: Seq<u8>) -> bool {
    let x = be_val(s.subrange(1, 33));
    let y = be_val(s.subrange(33, 65));
    s.len() == 65 && s[0] == 4 && x < field_prime() && y < field_prime() && fp_mul(y, y)
        == curve_rhs(x)
}

/// Whether a 33-byte string is a compressed point encoding that decoding
/// accepts: a parity tag, a canonical x, and a curve polynomial value
/// whose root search passes its check (exactly: `x` is on the curve).
pub open spec fn valid_compressed(s: Seq<u8>) -> bool {
    let x = be_val(s.subrange(1, 33));
    s.len() == 33 && (s[0] == 2 || s[0] == 3) && x < field_prime() && sqrt_check(curve_rhs(x))
}

/// The y-coordinate that decompression selects for a given curve
/// polynomial value: the Fermat-exponent root, or its negation, whichever
/// has the parity asked for.
pub open spec fn chosen_root(alpha: nat, want_odd: bool) -> nat {
    let beta = pow_mod(alpha, sqrt_exponent(), field_prime());
    if (beta % 2 == 1) == want_odd {
        beta
    } else {
        fp_neg(beta)
    }
}

/// The point a valid SEC1 encoding denotes: for the compressed form, the
/// y-root of the given parity; for the uncompressed form, the stated pair.
pub open spec fn decoded_point(s: Seq<u8>) -> PointVal {
    let x = be_val(s.subrange(1, 33));
    if s.len() == 33 {
        PointVal::At { x, y: chosen_root(curve_rhs(x), s[0] == 3) }
    } else {
        PointVal::At { x, y: be_val(s.subrange(33, 65)) }
    }
}

/// Decode a SEC1 point encoding, compressed (33 bytes, tag 2 or 3) or
/// uncompressed (65 bytes, tag 4), rejecting anything not on the curve.
///
/// A compressed x-coordinate whose curve polynomial value has no square
/// root is rejected; the root found for an accepted one is checked, and the
/// decoded point provably satisfies the curve equation.
pub fn decode_point(enc: &[u8]) -> (r: Result<AffinePoint, Error>)
    ensures
        (r is Ok) == (valid_compressed(enc@) || valid_uncompressed(enc@)),
        match r {
            Ok(pt) => {
                &&& pt.wf()
                &&& pt_on_curve(pt.model())
                &&& pt.model() == decoded_point(enc@)
            },
            Err(e) => e == Error::InvalidPublicKey,
        },
{
    let pbb = field_prime_bytes();
    if enc.len() == 33 {
        let tag = *vstd::slice::slice_index_get(enc, 0);
        if tag != 2 && tag != 3 {
            return Err(Error::InvalidPublicKey);
        }
        let x = copy_range(enc, 1, 33);
        if !be_lt(x.as_slice(), pbb.as_slice()) {
            return Err(Error::InvalidPublicKey);
        }
        let x2 = mod_mul(&x, &x, &pbb);
        let x3 = mod_mul(&x2, &x, &pbb);
        let bb = curve_b_bytes();
        let alpha = mod_add(&x3, &bb, &pbb);
        let beta = match try_sqrt(&alpha) {
            Some(b) => b,
            None => {
                return Err(Error::InvalidPublicKey);
            },
        };
        let zero = zero_bytes();
        let neg = mod_sub(&zero, &beta, &pbb);
        let last = *vstd::slice::slice_index_get(beta.as_slice(), 31);
        let beta_odd = (last & 1) == 1;
        let want_odd = tag == 3;
        let y = ct_select(beta_odd == want_odd, &beta, &neg);
        proof {
            assert((last & 1) == last % 2) by (bit_vector);
            assert(beta@.last() == beta@[31]);
            lemma_be_val_parity(beta@);
            lemma_neg_root(be_val(beta@));
        }
        Ok(AffinePoint::Xy { x, y })
    } else if enc.len() == 65 {
        let tag = *vstd::slice::slice_index_get(enc, 0);
        if tag != 4 {
            return Err(Error::InvalidPublicKey);
        }
        let x = copy_range(enc, 1, 33);
        let y = copy_range(enc, 33, 65);
        if !be_lt(x.as_slice(), pbb.as_slice()) || !be_lt(y.as_slice(), pbb.as_slice()) {
            return Err(Error::InvalidPublicKey);
        }
        let y2 = mod_mul(&y, &y, &pbb);
        let x2 = mod_mul(&x, &x, &pbb);
        let x3 = mod_mul(&x2, &x, &pbb);
        let bb = curve_b_bytes();
        let alpha = mod_add(&x3, &bb, &pbb);
        if bytes_eq(y2.as_slice(), alpha.as_slice()) {
            Ok(AffinePoint::Xy { x, y })
        } else {
            proof {
                if fp_mul(be_val(y@), be_val(y@)) == curve_rhs(be_val(x@)) {
                    lemma_be_val_injective(y2@, alpha@);
                }
            }
            Err(Error::InvalidPublicKey)
        }
    } else {
        Err(Error::InvalidPublicKey)
    }
}

} // verus!
