//! Crate-level laws relating several operations.

use vstd::prelude::*;
use vstd::std_specs::cmp::PartialEqSpec;
use crate::sig::{Signature, recoverable_valid, low_s};
use crate::consts::{curve_order, half_order, lemma_half_order};

verus! {

/// Round trip of the 65-byte wire form: a well-formed recoverable
/// signature's encoding is itself a valid encoding, so `Signature::parse`
/// of `Signature::to_bytes` succeeds by their contracts; and any
/// signature those contracts allow the parse to return carries the same
/// bytes as the original, which is exactly what `==` on `Signature`
/// means.
pub proof fn lemma_wire_round_trip(sig: Signature, reparsed: Signature)
    requires
        sig.wf(),
        reparsed@ == sig@,
    ensures
        recoverable_valid(sig@),
        reparsed.eq_spec(&sig),
{
}

/// The low representative of a non-zero canonical scalar is itself a
/// non-zero canonical scalar, is never high, and fixes every scalar that
/// is already low — so normalizing twice is the same as normalizing once.
pub proof fn lemma_low_s(s: nat)
    requires
        0 < s < curve_order(),
    ensures
        0 < low_s(s) < curve_order(),
        low_s(s) <= half_order(),
        low_s(low_s(s)) == low_s(s),
{
    lemma_half_order();
}

} // verus!
