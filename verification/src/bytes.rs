//! Big-endian byte strings as natural numbers.
//!
//! Every scalar, field element and wire format in this crate is a fixed-width
//! big-endian byte string; `be_val` is the common mathematical reading of such
//! a string, and the lemmas here relate byte-level operations (splitting,
//! comparing, parity) to the numbers they denote.

use vstd::prelude::*;
use vstd::arithmetic::mul::*;
use vstd::arithmetic::div_mod::*;

verus! {

/// The natural number denoted by a big-endian byte string.
pub open spec fn be_val(s: Seq<u8>) -> nat
    decreases s.len(),
{
    if s.len() == 0 {
        0
    } else {
        (be_val(s.drop_last()) * 256 + s.last()) as nat
    }
}

/// 256 to the power `k`: the weight of a byte `k` places from the end.
pub open spec fn pow256(k: nat) -> nat
    decreases k,
{
    if k == 0 {
        1
    } else {
        256 * pow256((k - 1) as nat)
    }
}

pub proof fn lemma_pow256_pos(k: nat)
    ensures
        pow256(k) >= 1,
    decreases k,
{
    if k > 0 {
        lemma_pow256_pos((k - 1) as nat);
    }
}

/// A string of `k` bytes denotes a number below `256^k`.
pub proof fn lemma_be_val_bound(s: Seq<u8>)
    ensures
        be_val(s) < pow256(s.len()),
    decreases s.len(),
{
    if s.len() > 0 {
        lemma_be_val_bound(s.drop_last());
        let pre = be_val(s.drop_last());
        let w = pow256((s.len() - 1) as nat);
        assert(pre * 256 <= (w - 1) * 256) by {
            lemma_mul_inequality(pre as int, w - 1, 256);
        }
    }
}

/// Splitting a byte string at `i` splits its value by the weight of the tail.
pub proof fn lemma_be_val_split(s: Seq<u8>, i: int)
    requires
        0 <= i <= s.len(),
    ensures
        be_val(s) == be_val(s.subrange(0, i)) * pow256((s.len() - i) as nat) + be_val(
            s.subrange(i, s.len() as int),
        ),
    decreases s.len() - i,
{
    if i == s.len() {
        assert(s.subrange(0, i) =~= s);
        assert(be_val(s.subrange(i, s.len() as int)) == 0);
        assert((s.len() - i) as nat == 0);
        assert(pow256(0) == 1);
        assert(be_val(s.subrange(0, i)) == be_val(s));
    } else {
        let dl = s.drop_last();
        lemma_be_val_split(dl, i);
        let hd = s.subrange(0, i);
        let tl = s.subrange(i, s.len() as int);
        assert(dl.subrange(0, i) =~= hd);
        assert(dl.subrange(i, dl.len() as int) =~= tl.drop_last());
        let w = pow256((dl.len() - i) as nat);
        assert(tl.last() == s.last());
        // be_val(s) == (be_val(hd) * w + be_val(tl.drop_last())) * 256 + s.last()
        assert((be_val(hd) * w + be_val(tl.drop_last())) * 256 == be_val(hd) * w * 256
            + be_val(tl.drop_last()) * 256) by {
            lemma_mul_is_distributive_add_other_way(
                256,
                (be_val(hd) * w) as int,
                be_val(tl.drop_last()) as int,
            );
        }
        assert(be_val(hd) * w * 256 == be_val(hd) * (w * 256)) by {
            lemma_mul_is_associative(be_val(hd) as int, w as int, 256);
        }
        assert(pow256((s.len() - i) as nat) == 256 * pow256((s.len() - i - 1) as nat));
        assert(w * 256 == pow256((s.len() - i) as nat)) by {
            lemma_mul_is_commutative(w as int, 256);
        }
        assert(be_val(s) == be_val(dl) * 256 + s.last());
        assert(be_val(tl) == be_val(tl.drop_last()) * 256 + tl.last());
        assert(be_val(dl) * 256 == (be_val(hd) * w + be_val(tl.drop_last())) * 256);
        assert(be_val(s) == be_val(hd) * (w * 256) + (be_val(tl.drop_last()) * 256 + s.last()));
    }
}

/// Equal-length byte strings with the same value are the same string.
pub proof fn lemma_be_val_injective(s1: Seq<u8>, s2: Seq<u8>)
    requires
        s1.len() == s2.len(),
        be_val(s1) == be_val(s2),
    ensures
        s1 =~= s2,
    decreases s1.len(),
{
    if s1.len() > 0 {
        let p1 = be_val(s1.drop_last());
        let p2 = be_val(s2.drop_last());
        assert(p1 * 256 + s1.last() == p2 * 256 + s2.last());
        assert(s1.last() == (p1 * 256 + s1.last()) % 256 && p1 == (p1 * 256 + s1.last()) / 256)
            by {
            lemma_fundamental_div_mod_converse((p1 * 256 + s1.last()) as int, 256, p1 as int, s1.last() as int);
        }
        assert(s2.last() == (p2 * 256 + s2.last()) % 256 && p2 == (p2 * 256 + s2.last()) / 256)
            by {
            lemma_fundamental_div_mod_converse((p2 * 256 + s2.last()) as int, 256, p2 as int, s2.last() as int);
        }
        lemma_be_val_injective(s1.drop_last(), s2.drop_last());
        assert(s1 =~= s1.drop_last().push(s1.last()));
        assert(s2 =~= s2.drop_last().push(s2.last()));
    } else {
        assert(s1 =~= s2);
    }
}

/// The value of a byte string is even or odd as its last byte is.
pub proof fn lemma_be_val_parity(s: Seq<u8>)
    requires
        s.len() > 0,
    ensures
        be_val(s) % 2 == s.last() % 2,
{
    let pre = be_val(s.drop_last());
    assert(pre * 256 == (pre * 128) * 2) by {
        lemma_mul_is_associative(pre as int, 128, 2);
    }
    assert(((pre * 128) * 2 + s.last()) % 2 == s.last() % 2) by {
        lemma_mod_multiples_vanish((pre * 128) as int, s.last() as int, 2);
    }
}

/// Compare two equal-length big-endian byte strings as numbers.
pub fn be_lt(a: &[u8], b: &[u8]) -> (r: bool)
    requires
        a@.len() == b@.len(),
    ensures
        r == (be_val(a@) < be_val(b@)),
{
    let n = a.len();
    let mut i: usize = 0;
    while i < n
        invariant
            0 <= i <= n,
            n == a@.len() == b@.len(),
            a@.subrange(0, i as int) =~= b@.subrange(0, i as int),
        decreases n - i,
    {
        let ai = *vstd::slice::slice_index_get(a, i);
        let bi = *vstd::slice::slice_index_get(b, i);
        if ai != bi {
            proof {
                lemma_be_lt_at(a@, b@, i as int);
            }
            return ai < bi;
        }
        proof {
            assert(a@.subrange(0, i + 1) =~= b@.subrange(0, i + 1));
        }
        i += 1;
    }
    proof {
        assert(a@.subrange(0, n as int) =~= a@);
        assert(b@.subrange(0, n as int) =~= b@);
        lemma_be_val_injective(a@.subrange(0, n as int), b@.subrange(0, n as int));
    }
    false
}

/// If two equal-length strings agree before position `i` and differ there,
/// the one with the smaller byte at `i` denotes the smaller number.
proof fn lemma_be_lt_at(a: Seq<u8>, b: Seq<u8>, i: int)
    requires
        a.len() == b.len(),
        0 <= i < a.len(),
        a.subrange(0, i) =~= b.subrange(0, i),
        a[i] != b[i],
    ensures
        (be_val(a) < be_val(b)) == (a[i] < b[i]),
{
    if a[i] < b[i] {
        lemma_be_lt_at_one_sided(a, b, i);
    } else {
        lemma_be_lt_at_one_sided(b, a, i);
    }
}

proof fn lemma_be_lt_at_one_sided(a: Seq<u8>, b: Seq<u8>, i: int)
    requires
        a.len() == b.len(),
        0 <= i < a.len(),
        a.subrange(0, i) =~= b.subrange(0, i),
        a[i] < b[i],
    ensures
        be_val(a) < be_val(b),
{
    let len = a.len() as int;
    lemma_be_val_split(a, i + 1);
    lemma_be_val_split(b, i + 1);
    let ha = a.subrange(0, i + 1);
    let hb = b.subrange(0, i + 1);
    let w = pow256((len - i - 1) as nat);
    // ha and hb share their first i bytes and differ at the last.
    assert(ha.drop_last() =~= a.subrange(0, i));
    assert(hb.drop_last() =~= b.subrange(0, i));
    assert(be_val(ha) + 1 <= be_val(hb));
    lemma_be_val_bound(a.subrange(i + 1, len));
    lemma_pow256_pos((len - i - 1) as nat);
    assert(be_val(ha) * w + w <= be_val(hb) * w) by {
        lemma_mul_inequality(be_val(ha) as int + 1, be_val(hb) as int, w as int);
        lemma_mul_is_distributive_add_other_way(w as int, be_val(ha) as int, 1);
    }
}

/// Equality of two byte slices.
pub fn bytes_eq(a: &[u8], b: &[u8]) -> (r: bool)
    ensures
        r == (a@ =~= b@),
{
    if a.len() != b.len() {
        return false;
    }
    let n = a.len();
    let mut i: usize = 0;
    while i < n
        invariant
            0 <= i <= n,
            n == a@.len() == b@.len(),
            forall|j: int| 0 <= j < i ==> a@[j] == b@[j],
        decreases n - i,
    {
        let ai = *vstd::slice::slice_index_get(a, i);
        let bi = *vstd::slice::slice_index_get(b, i);
        if ai != bi {
            proof {
                assert(!(a@ =~= b@)) by {
                    assert(a@[i as int] != b@[i as int]);
                }
            }
            return false;
        }
        i += 1;
    }
    proof {
        assert(a@ =~= b@);
    }
    true
}

/// Copy the bytes of `s` between `i` and `j` into a fresh vector.
pub fn copy_range(s: &[u8], i: usize, j: usize) -> (r: Vec<u8>)
    requires
        0 <= i <= j <= s@.len(),
    ensures
        r@ == s@.subrange(i as int, j as int),
{
    let sub = vstd::slice::slice_subrange(s, i, j);
    vstd::slice::slice_to_vec(sub)
}

/// The two strings laid end to end in a fresh vector.
pub fn concat_bytes(a: &Vec<u8>, b: &Vec<u8>) -> (r: Vec<u8>)
    ensures
        r@ == a@ + b@,
{
    let mut out = copy_range(a.as_slice(), 0, a.len());
    let n = b.len();
    let mut i: usize = 0;
    proof {
        assert(a@.subrange(0, a@.len() as int) =~= a@);
        assert(out@ =~= a@ + b@.subrange(0, 0));
    }
    while i < n
        invariant
            0 <= i <= n,
            n == b@.len(),
            out@ =~= a@ + b@.subrange(0, i as int),
        decreases n - i,
    {
        out.push(*vstd::slice::slice_index_get(b.as_slice(), i));
        proof {
            assert(out@ =~= a@ + b@.subrange(0, i + 1));
        }
        i += 1;
    }
    proof {
        assert(b@.subrange(0, n as int) =~= b@);
        assert(out@ =~= a@ + b@);
    }
    out
}

/// Append one byte, shifting the value of the string up by 256.
pub fn push_byte(v: Vec<u8>, b: u8) -> (r: Vec<u8>)
    ensures
        r@.len() == v@.len() + 1,
        be_val(r@) == be_val(v@) * 256 + b,
        r@.last() == b,
    {
    let mut out = v;
    let ghost v0 = out@;
    out.push(b);
    proof {
        assert(out@.drop_last() =~= v0);
    }
    out
}

} // verus!
