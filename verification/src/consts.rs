//! The secp256k1 curve parameters.
//!
//! The curve is `y^2 = x^3 + 7` over the prime field of `field_prime()`
//! elements; its group of points has prime order `curve_order()`, with
//! generator `(gen_x(), gen_y())`. Each parameter is available both as a
//! specification-level number and as the 32-byte big-endian string that the
//! executable code works on, with the two proved to agree.

use vstd::prelude::*;
use crate::bytes::{be_val, push_byte};

verus! {

/// The field prime p of secp256k1.
pub open spec fn field_prime() -> nat {
    (((0xffffffffffffffff) * 0x1_0000_0000_0000_0000 + 0xffffffffffffffff) * 0x1_0000_0000_0000_0000 + 0xffffffffffffffff) * 0x1_0000_0000_0000_0000 + 0xfffffffefffffc2f
}

/// The group order n of secp256k1.
pub open spec fn curve_order() -> nat {
    (((0xffffffffffffffff) * 0x1_0000_0000_0000_0000 + 0xfffffffffffffffe) * 0x1_0000_0000_0000_0000 + 0xbaaedce6af48a03b) * 0x1_0000_0000_0000_0000 + 0xbfd25e8cd0364141
}

/// The largest scalar counted as "low": floor(n / 2).
pub open spec fn half_order() -> nat {
    (((0x7fffffffffffffff) * 0x1_0000_0000_0000_0000 + 0xffffffffffffffff) * 0x1_0000_0000_0000_0000 + 0x5d576e7357a4501d) * 0x1_0000_0000_0000_0000 + 0xdfe92f46681b20a0
}

/// The constant term of the curve equation.
pub open spec fn curve_b() -> nat {
    7
}

/// x-coordinate of the generator point.
pub open spec fn gen_x() -> nat {
    (((0x79be667ef9dcbbac) * 0x1_0000_0000_0000_0000 + 0x55a06295ce870b07) * 0x1_0000_0000_0000_0000 + 0x029bfcdb2dce28d9) * 0x1_0000_0000_0000_0000 + 0x59f2815b16f81798
}

/// y-coordinate of the generator point.
pub open spec fn gen_y() -> nat {
    (((0x483ada7726a3c465) * 0x1_0000_0000_0000_0000 + 0x5da4fbfc0e1108a8) * 0x1_0000_0000_0000_0000 + 0xfd17b448a6855419) * 0x1_0000_0000_0000_0000 + 0x9c47d08ffb10d4b8
}

/// The exponent (p + 1) / 4 used to find square roots mod p.
pub open spec fn sqrt_exponent() -> nat {
    (((0x3fffffffffffffff) * 0x1_0000_0000_0000_0000 + 0xffffffffffffffff) * 0x1_0000_0000_0000_0000 + 0xffffffffffffffff) * 0x1_0000_0000_0000_0000 + 0xffffffffbfffff0c
}

/// The exponent p - 2 used to find inverses mod p.
pub open spec fn prime_inv_exponent() -> nat {
    (((0xffffffffffffffff) * 0x1_0000_0000_0000_0000 + 0xffffffffffffffff) * 0x1_0000_0000_0000_0000 + 0xffffffffffffffff) * 0x1_0000_0000_0000_0000 + 0xfffffffefffffc2d
}

/// The exponent n - 2 used to find inverses mod n.
pub open spec fn order_inv_exponent() -> nat {
    (((0xffffffffffffffff) * 0x1_0000_0000_0000_0000 + 0xfffffffffffffffe) * 0x1_0000_0000_0000_0000 + 0xbaaedce6af48a03b) * 0x1_0000_0000_0000_0000 + 0xbfd25e8cd036413f
}

/// The order is odd, and `half_order` is exactly its lower half.
pub proof fn lemma_half_order()
    ensures
        curve_order() == 2 * half_order() + 1,
{
}

/// The field prime, as 32 big-endian bytes.
pub fn field_prime_bytes() -> (r: Vec<u8>)
    ensures
        r@.len() == 32,
        be_val(r@) == field_prime(),
{
    let v: Vec<u8> = Vec::new();
    let v = push_byte(v, 0xff);
    let v = push_byte(v, 0xff);
    let v = push_byte(v, 0xff);
    let v = push_byte(v, 0xff);
    let v = push_byte(v, 0xff);
    let v = push_byte(v, 0xff);
    let v = push_byte(v, 0xff);
    let v = push_byte(v, 0xff);
    let v = push_byte(v, 0xff);
    let v = push_byte(v, 0xff);
    let v = push_byte(v, 0xff);
    let v = push_byte(v, 0xff);
    let v = push_byte(v, 0xff);
    let v = push_byte(v, 0xff);
    let v = push_byte(v, 0xff);
    let v = push_byte(v, 0xff);
    let v = push_byte(v, 0xff);
    let v = push_byte(v, 0xff);
    let v = push_byte(v, 0xff);
    let v = push_byte(v, 0xff);
    let v = push_byte(v, 0xff);
    let v = push_byte(v, 0xff);
    let v = push_byte(v, 0xff);
    let v = push_byte(v, 0xff);
    let v = push_byte(v, 0xff);
    let v = push_byte(v, 0xff);
    let v = push_byte(v, 0xff);
    let v = push_byte(v, 0xfe);
    let v = push_byte(v, 0xff);
    let v = push_byte(v, 0xff);
    let v = push_byte(v, 0xfc);
    let v = push_byte(v, 0x2f);
    v
}

/// The group order, as 32 big-endian bytes.
pub fn curve_order_bytes() -> (r: Vec<u8>)
    ensures
        r@.len() == 32,
        be_val(r@) == curve_order(),
{
    let v: Vec<u8> = Vec::new();
    let v = push_byte(v, 0xff);
    let v = push_byte(v, 0xff);
    let v = push_byte(v, 0xff);
    let v = push_byte(v, 0xff);
    let v = push_byte(v, 0xff);
    let v = push_byte(v, 0xff);
    let v = push_byte(v, 0xff);
    let v = push_byte(v, 0xff);
    let v = push_byte(v, 0xff);
    let v = push_byte(v, 0xff);
    let v = push_byte(v, 0xff);
    let v = push_byte(v, 0xff);
    let v = push_byte(v, 0xff);
    let v = push_byte(v, 0xff);
    let v = push_byte(v, 0xff);
    let v = push_byte(v, 0xfe);
    let v = push_byte(v, 0xba);
    let v = push_byte(v, 0xae);
    let v = push_byte(v, 0xdc);
    let v = push_byte(v, 0xe6);
    let v = push_byte(v, 0xaf);
    let v = push_byte(v, 0x48);
    let v = push_byte(v, 0xa0);
    let v = push_byte(v, 0x3b);
    let v = push_byte(v, 0xbf);
    let v = push_byte(v, 0xd2);
    let v = push_byte(v, 0x5e);
    let v = push_byte(v, 0x8c);
    let v = push_byte(v, 0xd0);
    let v = push_byte(v, 0x36);
    let v = push_byte(v, 0x41);
    let v = push_byte(v, 0x41);
    v
}

/// floor(n / 2), as 32 big-endian bytes.
pub fn half_order_bytes() -> (r: Vec<u8>)
    ensures
        r@.len() == 32,
        be_val(r@) == half_order(),
{
    let v: Vec<u8> = Vec::new();
    let v = push_byte(v, 0x7f);
    let v = push_byte(v, 0xff);
    let v = push_byte(v, 0xff);
    let v = push_byte(v, 0xff);
    let v = push_byte(v, 0xff);
    let v = push_byte(v, 0xff);
    let v = push_byte(v, 0xff);
    let v = push_byte(v, 0xff);
    let v = push_byte(v, 0xff);
    let v = push_byte(v, 0xff);
    let v = push_byte(v, 0xff);
    let v = push_byte(v, 0xff);
    let v = push_byte(v, 0xff);
    let v = push_byte(v, 0xff);
    let v = push_byte(v, 0xff);
    let v = push_byte(v, 0xff);
    let v = push_byte(v, 0x5d);
    let v = push_byte(v, 0x57);
    let v = push_byte(v, 0x6e);
    let v = push_byte(v, 0x73);
    let v = push_byte(v, 0x57);
    let v = push_byte(v, 0xa4);
    let v = push_byte(v, 0x50);
    let v = push_byte(v, 0x1d);
    let v = push_byte(v, 0xdf);
    let v = push_byte(v, 0xe9);
    let v = push_byte(v, 0x2f);
    let v = push_byte(v, 0x46);
    let v = push_byte(v, 0x68);
    let v = push_byte(v, 0x1b);
    let v = push_byte(v, 0x20);
    let v = push_byte(v, 0xa0);
    v
}

/// The generator's x-coordinate, as 32 big-endian bytes.
pub fn gen_x_bytes() -> (r: Vec<u8>)
    ensures
        r@.len() == 32,
        be_val(r@) == gen_x(),
{
    let v: Vec<u8> = Vec::new();
    let v = push_byte(v, 0x79);
    let v = push_byte(v, 0xbe);
    let v = push_byte(v, 0x66);
    let v = push_byte(v, 0x7e);
    let v = push_byte(v, 0xf9);
    let v = push_byte(v, 0xdc);
    let v = push_byte(v, 0xbb);
    let v = push_byte(v, 0xac);
    let v = push_byte(v, 0x55);
    let v = push_byte(v, 0xa0);
    let v = push_byte(v, 0x62);
    let v = push_byte(v, 0x95);
    let v = push_byte(v, 0xce);
    let v = push_byte(v, 0x87);
    let v = push_byte(v, 0x0b);
    let v = push_byte(v, 0x07);
    let v = push_byte(v, 0x02);
    let v = push_byte(v, 0x9b);
    let v = push_byte(v, 0xfc);
    let v = push_byte(v, 0xdb);
    let v = push_byte(v, 0x2d);
    let v = push_byte(v, 0xce);
    let v = push_byte(v, 0x28);
    let v = push_byte(v, 0xd9);
    let v = push_byte(v, 0x59);
    let v = push_byte(v, 0xf2);
    let v = push_byte(v, 0x81);
    let v = push_byte(v, 0x5b);
    let v = push_byte(v, 0x16);
    let v = push_byte(v, 0xf8);
    let v = push_byte(v, 0x17);
    let v = push_byte(v, 0x98);
    v
}

/// The generator's y-coordinate, as 32 big-endian bytes.
pub fn gen_y_bytes() -> (r: Vec<u8>)
    ensures
        r@.len() == 32,
        be_val(r@) == gen_y(),
{
    let v: Vec<u8> = Vec::new();
    let v = push_byte(v, 0x48);
    let v = push_byte(v, 0x3a);
    let v = push_byte(v, 0xda);
    let v = push_byte(v, 0x77);
    let v = push_byte(v, 0x26);
    let v = push_byte(v, 0xa3);
    let v = push_byte(v, 0xc4);
    let v = push_byte(v, 0x65);
    let v = push_byte(v, 0x5d);
    let v = push_byte(v, 0xa4);
    let v = push_byte(v, 0xfb);
    let v = push_byte(v, 0xfc);
    let v = push_byte(v, 0x0e);
    let v = push_byte(v, 0x11);
    let v = push_byte(v, 0x08);
    let v = push_byte(v, 0xa8);
    let v = push_byte(v, 0xfd);
    let v = push_byte(v, 0x17);
    let v = push_byte(v, 0xb4);
    let v = push_byte(v, 0x48);
    let v = push_byte(v, 0xa6);
    let v = push_byte(v, 0x85);
    let v = push_byte(v, 0x54);
    let v = push_byte(v, 0x19);
    let v = push_byte(v, 0x9c);
    let v = push_byte(v, 0x47);
    let v = push_byte(v, 0xd0);
    let v = push_byte(v, 0x8f);
    let v = push_byte(v, 0xfb);
    let v = push_byte(v, 0x10);
    let v = push_byte(v, 0xd4);
    let v = push_byte(v, 0xb8);
    v
}

/// The curve equation's constant term, as 32 big-endian bytes.
pub fn curve_b_bytes() -> (r: Vec<u8>)
    ensures
        r@.len() == 32,
        be_val(r@) == curve_b(),
{
    let v: Vec<u8> = Vec::new();
    let v = push_byte(v, 0x00);
    let v = push_byte(v, 0x00);
    let v = push_byte(v, 0x00);
    let v = push_byte(v, 0x00);
    let v = push_byte(v, 0x00);
    let v = push_byte(v, 0x00);
    let v = push_byte(v, 0x00);
    let v = push_byte(v, 0x00);
    let v = push_byte(v, 0x00);
    let v = push_byte(v, 0x00);
    let v = push_byte(v, 0x00);
    let v = push_byte(v, 0x00);
    let v = push_byte(v, 0x00);
    let v = push_byte(v, 0x00);
    let v = push_byte(v, 0x00);
    let v = push_byte(v, 0x00);
    let v = push_byte(v, 0x00);
    let v = push_byte(v, 0x00);
    let v = push_byte(v, 0x00);
    let v = push_byte(v, 0x00);
    let v = push_byte(v, 0x00);
    let v = push_byte(v, 0x00);
    let v = push_byte(v, 0x00);
    let v = push_byte(v, 0x00);
    let v = push_byte(v, 0x00);
    let v = push_byte(v, 0x00);
    let v = push_byte(v, 0x00);
    let v = push_byte(v, 0x00);
    let v = push_byte(v, 0x00);
    let v = push_byte(v, 0x00);
    let v = push_byte(v, 0x00);
    let v = push_byte(v, 0x07);
    v
}

/// (p + 1) / 4, as 32 big-endian bytes.
pub fn sqrt_exponent_bytes() -> (r: Vec<u8>)
    ensures
        r@.len() == 32,
        be_val(r@) == sqrt_exponent(),
{
    let v: Vec<u8> = Vec::new();
    let v = push_byte(v, 0x3f);
    let v = push_byte(v, 0xff);
    let v = push_byte(v, 0xff);
    let v = push_byte(v, 0xff);
    let v = push_byte(v, 0xff);
    let v = push_byte(v, 0xff);
    let v = push_byte(v, 0xff);
    let v = push_byte(v, 0xff);
    let v = push_byte(v, 0xff);
    let v = push_byte(v, 0xff);
    let v = push_byte(v, 0xff);
    let v = push_byte(v, 0xff);
    let v = push_byte(v, 0xff);
    let v = push_byte(v, 0xff);
    let v = push_byte(v, 0xff);
    let v = push_byte(v, 0xff);
    let v = push_byte(v, 0xff);
    let v = push_byte(v, 0xff);
    let v = push_byte(v, 0xff);
    let v = push_byte(v, 0xff);
    let v = push_byte(v, 0xff);
    let v = push_byte(v, 0xff);
    let v = push_byte(v, 0xff);
    let v = push_byte(v, 0xff);
    let v = push_byte(v, 0xff);
    let v = push_byte(v, 0xff);
    let v = push_byte(v, 0xff);
    let v = push_byte(v, 0xff);
    let v = push_byte(v, 0xbf);
    let v = push_byte(v, 0xff);
    let v = push_byte(v, 0xff);
    let v = push_byte(v, 0x0c);
    v
}

/// p - 2, as 32 big-endian bytes.
pub fn prime_inv_exponent_bytes() -> (r: Vec<u8>)
    ensures
        r@.len() == 32,
        be_val(r@) == prime_inv_exponent(),
{
    let v: Vec<u8> = Vec::new();
    let v = push_byte(v, 0xff);
    let v = push_byte(v, 0xff);
    let v = push_byte(v, 0xff);
    let v = push_byte(v, 0xff);
    let v = push_byte(v, 0xff);
    let v = push_byte(v, 0xff);
    let v = push_byte(v, 0xff);
    let v = push_byte(v, 0xff);
    let v = push_byte(v, 0xff);
    let v = push_byte(v, 0xff);
    let v = push_byte(v, 0xff);
    let v = push_byte(v, 0xff);
    let v = push_byte(v, 0xff);
    let v = push_byte(v, 0xff);
    let v = push_byte(v, 0xff);
    let v = push_byte(v, 0xff);
    let v = push_byte(v, 0xff);
    let v = push_byte(v, 0xff);
    let v = push_byte(v, 0xff);
    let v = push_byte(v, 0xff);
    let v = push_byte(v, 0xff);
    let v = push_byte(v, 0xff);
    let v = push_byte(v, 0xff);
    let v = push_byte(v, 0xff);
    let v = push_byte(v, 0xff);
    let v = push_byte(v, 0xff);
    let v = push_byte(v, 0xff);
    let v = push_byte(v, 0xfe);
    let v = push_byte(v, 0xff);
    let v = push_byte(v, 0xff);
    let v = push_byte(v, 0xfc);
    let v = push_byte(v, 0x2d);
    v
}

/// n - 2, as 32 big-endian bytes.
pub fn order_inv_exponent_bytes() -> (r: Vec<u8>)
    ensures
        r@.len() == 32,
        be_val(r@) == order_inv_exponent(),
{
    let v: Vec<u8> = Vec::new();
    let v = push_byte(v, 0xff);
    let v = push_byte(v, 0xff);
    let v = push_byte(v, 0xff);
    let v = push_byte(v, 0xff);
    let v = push_byte(v, 0xff);
    let v = push_byte(v, 0xff);
    let v = push_byte(v, 0xff);
    let v = push_byte(v, 0xff);
    let v = push_byte(v, 0xff);
    let v = push_byte(v, 0xff);
    let v = push_byte(v, 0xff);
    let v = push_byte(v, 0xff);
    let v = push_byte(v, 0xff);
    let v = push_byte(v, 0xff);
    let v = push_byte(v, 0xff);
    let v = push_byte(v, 0xfe);
    let v = push_byte(v, 0xba);
    let v = push_byte(v, 0xae);
    let v = push_byte(v, 0xdc);
    let v = push_byte(v, 0xe6);
    let v = push_byte(v, 0xaf);
    let v = push_byte(v, 0x48);
    let v = push_byte(v, 0xa0);
    let v = push_byte(v, 0x3b);
    let v = push_byte(v, 0xbf);
    let v = push_byte(v, 0xd2);
    let v = push_byte(v, 0x5e);
    let v = push_byte(v, 0x8c);
    let v = push_byte(v, 0xd0);
    let v = push_byte(v, 0x36);
    let v = push_byte(v, 0x41);
    let v = push_byte(v, 0x3f);
    v
}

/// The all-zero string: the field and scalar zero.
pub fn zero_bytes() -> (r: Vec<u8>)
    ensures
        r@.len() == 32,
        be_val(r@) == 0,
{
    let mut v: Vec<u8> = Vec::new();
    let mut i: usize = 0;
    while i < 32
        invariant
            0 <= i <= 32,
            v@.len() == i,
            be_val(v@) == 0,
        decreases 32 - i,
    {
        v = push_byte(v, 0x00);
        i += 1;
    }
    v
}

/// The 32-byte string of value one.
pub fn one_bytes() -> (r: Vec<u8>)
    ensures
        r@.len() == 32,
        be_val(r@) == 1,
{
    let mut v: Vec<u8> = Vec::new();
    let mut i: usize = 0;
    while i < 31
        invariant
            0 <= i <= 31,
            v@.len() == i,
            be_val(v@) == 0,
        decreases 31 - i,
    {
        v = push_byte(v, 0x00);
        i += 1;
    }
    let v = push_byte(v, 0x01);
    v
}

} // verus!
