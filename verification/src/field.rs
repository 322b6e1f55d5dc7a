//! Verified helpers over the modular arithmetic: inverses found by
//! exponentiation and checked by multiplication, square roots likewise, and
//! a branchless selection between two byte strings.

use vstd::prelude::*;
use vstd::arithmetic::mul::*;
use vstd::arithmetic::div_mod::*;
use crate::bytes::{be_val, bytes_eq};
use crate::bigmod::{mod_mul, mod_pow, pow_mod};
use crate::consts::{field_prime, sqrt_exponent, field_prime_bytes, sqrt_exponent_bytes, one_bytes};
use crate::bytes::lemma_be_val_injective;

verus! {

/// Whether raising `x` to `e` mod `m` yields a multiplicative inverse
/// of `x`: the success condition of [`try_invert`].
pub open spec fn inv_check(x: nat, e: nat, m: nat) -> bool {
    (x * pow_mod(x, e, m)) % m == 1
}

/// Whether raising `a` to `(p + 1) / 4` mod the field prime yields a
/// square root of `a`: the success condition of [`try_sqrt`]. For the
/// secp256k1 prime this holds exactly when `a` is a quadratic residue.
pub open spec fn sqrt_check(a: nat) -> bool {
    (pow_mod(a, sqrt_exponent(), field_prime()) * pow_mod(a, sqrt_exponent(), field_prime()))
        % field_prime() == a
}

/// The multiplicative inverse of `x` mod `m`, where one exists.
pub open spec fn inv_val(x: nat, m: nat) -> nat {
    choose|z: nat| z < m && #[trigger] ((x * z) % m) == 1
}

/// An element of a mod-`m` ring has at most one inverse.
pub proof fn lemma_inv_unique(x: nat, m: nat, z1: nat, z2: nat)
    requires
        m > 0,
        z1 < m,
        z2 < m,
        (x * z1) % m == 1,
        (x * z2) % m == 1,
    ensures
        z1 == z2,
{
    let xi = x as int;
    let a = z1 as int;
    let b = z2 as int;
    let mi = m as int;
    assert((a * (xi * b)) % mi == (a * ((xi * b) % mi)) % mi) by {
        lemma_mul_mod_noop_general(xi * b, a, mi);
        lemma_mul_is_commutative(a, xi * b);
        lemma_mul_is_commutative(a, (xi * b) % mi);
    }
    assert((a * 1) % mi == a % mi);
    assert(a % mi == a) by {
        lemma_small_mod(z1, m);
    }
    assert(a * (xi * b) == (xi * a) * b) by {
        lemma_mul_is_associative(a, xi, b);
        lemma_mul_is_commutative(a, xi);
    }
    assert(((xi * a) * b) % mi == (((xi * a) % mi) * b) % mi) by {
        lemma_mul_mod_noop_general(xi * a, b, mi);
    }
    assert((1 * b) % mi == b % mi);
    assert(b % mi == b) by {
        lemma_small_mod(z2, m);
    }
}

/// Try to invert `x` mod `m` by raising it to `e` and checking the product.
///
/// The exponent is the caller's claim about `m` (for a prime `m` it is
/// `m - 2`); the check, not the claim, carries the proof. The outcome is
/// exactly [`inv_check`]: `Some` iff the candidate passes, and the
/// returned value is the candidate power itself.
pub fn try_invert(x: &Vec<u8>, m: &Vec<u8>, e: &Vec<u8>) -> (r: Option<Vec<u8>>)
    requires
        m@.len() == 32,
        be_val(m@) > 1,
    ensures
        (r is Some) == inv_check(be_val(x@), be_val(e@), be_val(m@)),
        match r {
            Some(v) => {
                &&& v@.len() == 32
                &&& be_val(v@) == pow_mod(be_val(x@), be_val(e@), be_val(m@))
                &&& be_val(v@) < be_val(m@)
                &&& (be_val(x@) * be_val(v@)) % be_val(m@) == 1
                &&& be_val(v@) == inv_val(be_val(x@), be_val(m@))
            },
            None => true,
        },
{
    let cand = mod_pow(x, e, m);
    let chk = mod_mul(x, &cand, m);
    let one = one_bytes();
    if bytes_eq(chk.as_slice(), one.as_slice()) {
        proof {
            assert(be_val(chk@) == 1);
            let xv = be_val(x@);
            let mv = be_val(m@);
            let cv = be_val(cand@);
            assert(cv < mv && (xv * cv) % mv == 1);
            assert(exists|z: nat| z < mv && #[trigger] ((xv * z) % mv) == 1);
            let zc = inv_val(xv, mv);
            assert(zc < mv && (xv * zc) % mv == 1);
            lemma_inv_unique(xv, mv, cv, zc);
        }
        Some(cand)
    } else {
        proof {
            if inv_check(be_val(x@), be_val(e@), be_val(m@)) {
                lemma_be_val_injective(chk@, one@);
            }
        }
        None
    }
}

/// Try to find a square root of `a` mod the field prime, by raising `a` to
/// `(p + 1) / 4` and squaring the candidate to check it.
///
/// The outcome is exactly [`sqrt_check`]: `Some` iff the squared candidate
/// gives `a` back, and the returned root is the candidate power itself.
/// For the secp256k1 prime that happens precisely when a root exists.
pub fn try_sqrt(a: &Vec<u8>) -> (r: Option<Vec<u8>>)
    requires
        a@.len() == 32,
        be_val(a@) < field_prime(),
    ensures
        (r is Some) == sqrt_check(be_val(a@)),
        match r {
            Some(v) => {
                &&& v@.len() == 32
                &&& be_val(v@) == pow_mod(be_val(a@), sqrt_exponent(), field_prime())
                &&& be_val(v@) < field_prime()
                &&& (be_val(v@) * be_val(v@)) % field_prime() == be_val(a@)
            },
            None => true,
        },
{
    let p = field_prime_bytes();
    let e = sqrt_exponent_bytes();
    let cand = mod_pow(a, &e, &p);
    let chk = mod_mul(&cand, &cand, &p);
    if bytes_eq(chk.as_slice(), a.as_slice()) {
        Some(cand)
    } else {
        proof {
            if sqrt_check(be_val(a@)) {
                lemma_be_val_injective(chk@, a@);
            }
        }
        None
    }
}

/// Choose between two equal-length byte strings without a data-dependent
/// branch: the flag becomes an all-ones or all-zero mask, and each output
/// byte is assembled by masking.
pub fn ct_select(flag: bool, a: &Vec<u8>, b: &Vec<u8>) -> (r: Vec<u8>)
    requires
        a@.len() == b@.len(),
    ensures
        r@ == if flag {
            a@
        } else {
            b@
        },
{
    let mask: u8 = (flag as u8) * 0xff;
    proof {
        assert(flag ==> mask == 0xff);
        assert(!flag ==> mask == 0x00);
    }
    let n = a.len();
    let mut out: Vec<u8> = Vec::new();
    let mut i: usize = 0;
    while i < n
        invariant
            0 <= i <= n,
            n == a@.len() == b@.len(),
            out@.len() == i,
            mask == if flag { 0xffu8 } else { 0x00u8 },
            forall|j: int| 0 <= j < i ==> out@[j] == if flag { a@[j] } else { b@[j] },
        decreases n - i,
    {
        let x = *vstd::slice::slice_index_get(a.as_slice(), i);
        let y = *vstd::slice::slice_index_get(b.as_slice(), i);
        let z: u8 = (x & mask) | (y & !mask);
        proof {
            let mk = mask;
            assert(mk == 0xff ==> ((x & mk) | (y & !mk)) == x) by (bit_vector);
            assert(mk == 0x00 ==> ((x & mk) | (y & !mk)) == y) by (bit_vector);
        }
        out.push(z);
        i += 1;
    }
    proof {
        if flag {
            assert(out@ =~= a@);
        } else {
            assert(out@ =~= b@);
        }
    }
    out
}

} // verus!
