//! Signature wire formats: the recovery identifier, the 64-byte plain
//! signature, and the 65-byte recoverable signature.
//!
//! A plain signature is `r (32 bytes) ‖ s (32 bytes)`, both halves non-zero
//! canonical scalars; a recoverable signature appends one identifier byte,
//! 0 or 1, telling which of the two y-roots the signer's key has. All
//! components are immutable once constructed: invalid states fail to
//! construct instead of existing transiently.

use vstd::prelude::*;
use vstd::arithmetic::div_mod::*;
use crate::bytes::{be_val, be_lt, bytes_eq, copy_range, lemma_be_val_injective};
use crate::bigmod::mod_sub;
use crate::consts::{curve_order, half_order, curve_order_bytes, zero_bytes, lemma_half_order};
use crate::errors::Error;

verus! {

/// The `r` component of a signature encoded at `s`: its first 32 bytes.
pub open spec fn sig_r(s: Seq<u8>) -> nat {
    be_val(s.subrange(0, 32))
}

/// The `s` component of a signature encoded at `s`: its second 32 bytes.
pub open spec fn sig_s(s: Seq<u8>) -> nat {
    be_val(s.subrange(32, 64))
}

/// A valid 64-byte plain signature encoding: both halves are non-zero
/// canonical scalars.
pub open spec fn plain_valid(s: Seq<u8>) -> bool {
    s.len() == 64 && 0 < sig_r(s) < curve_order() && 0 < sig_s(s) < curve_order()
}

/// A valid 65-byte recoverable signature encoding.
pub open spec fn recoverable_valid(s: Seq<u8>) -> bool {
    s.len() == 65 && plain_valid(s.subrange(0, 64)) && (s[64] == 0 || s[64] == 1)
}

/// The low representative of a scalar: `s` itself if it is at most half
/// the order, otherwise `n - s`.
pub open spec fn low_s(s: nat) -> nat {
    if s > half_order() {
        (curve_order() - s) as nat
    } else {
        s
    }
}

/// The error that a 65-byte parse reports for an invalid encoding: length
/// first, then the scalar halves, then the identifier byte.
pub open spec fn parse_error_of(s: Seq<u8>) -> Error {
    if s.len() != 65 {
        Error::InvalidLength
    } else if !plain_valid(s.subrange(0, 64)) {
        Error::ScalarOutOfRange
    } else {
        Error::InvalidRecoveryId
    }
}

/// A recovery identifier: 0 or 1, the parity of the signer's y-coordinate.
///
/// The wider convention also defines the values 2 and 3 for signatures
/// whose `r` overflowed the curve order; those are deliberately not
/// supported, and rejected at construction.
#[derive(Clone, Copy, Debug, PartialEq, Eq, Structural)]
pub struct Id {
    pub value: u8,
}

impl Id {
    pub open spec fn wf(&self) -> bool {
        self.value == 0 || self.value == 1
    }

    /// The stored byte.
    pub open spec fn byte_spec(&self) -> u8 {
        self.value
    }

    /// Accept a byte as a recovery identifier iff it is 0 or 1.
    pub fn new(byte: u8) -> (r: Result<Id, Error>)
        ensures
            (r is Ok) == (byte == 0 || byte == 1),
            r matches Ok(id) ==> id.wf() && id.byte_spec() == byte,
            r matches Err(e) ==> e == Error::InvalidRecoveryId,
    {
        if byte == 0 || byte == 1 {
            Ok(Id { value: byte })
        } else {
            Err(Error::InvalidRecoveryId)
        }
    }

    /// Whether the signer's y-coordinate is odd.
    pub fn is_y_odd(&self) -> (r: bool)
        ensures
            r == (self.byte_spec() == 1),
    {
        self.value == 1
    }

    /// The identifier as its wire byte.
    pub fn to_byte(&self) -> (r: u8)
        ensures
            r == self.byte_spec(),
    {
        self.value
    }
}

/// A non-zero canonical scalar: 32 big-endian bytes strictly between 0 and
/// the curve order.
#[derive(Debug)]
pub struct Scalar {
    pub bytes: Vec<u8>,
}

impl Scalar {
    pub open spec fn wf(&self) -> bool {
        self.bytes@.len() == 32 && 0 < be_val(self.bytes@) < curve_order()
    }

    /// The number this scalar denotes.
    pub open spec fn value(&self) -> nat {
        be_val(self.bytes@)
    }

    /// The scalar's 32-byte big-endian encoding.
    pub fn as_bytes(&self) -> (r: &Vec<u8>)
        ensures
            r@.len() == self.bytes@.len(),
            be_val(r@) == self.value(),
    {
        &self.bytes
    }
}

/// A plain (non-recoverable) ECDSA signature: `r ‖ s`, 64 bytes.
#[derive(Debug)]
pub struct PlainSignature {
    pub bytes: Vec<u8>,
}

impl View for PlainSignature {
    type V = Seq<u8>;

    open spec fn view(&self) -> Seq<u8> {
        self.bytes@
    }
}

impl PlainSignature {
    pub open spec fn wf(&self) -> bool {
        plain_valid(self@)
    }

    /// Split 64 bytes into the two scalar halves, rejecting a wrong length
    /// and any half that is zero or not below the curve order.
    pub fn parse(bytes: &[u8]) -> (r: Result<PlainSignature, Error>)
        ensures
            (r is Ok) == plain_valid(bytes@),
            r matches Ok(sig) ==> sig.wf() && sig@ == bytes@,
            r matches Err(e) ==> e == (if bytes@.len() != 64 {
                Error::InvalidLength
            } else {
                Error::ScalarOutOfRange
            }),
    {
        if bytes.len() != 64 {
            return Err(Error::InvalidLength);
        }
        let rb = copy_range(bytes, 0, 32);
        let sb = copy_range(bytes, 32, 64);
        let zero = zero_bytes();
        let nb = curve_order_bytes();
        if bytes_eq(rb.as_slice(), zero.as_slice()) || !be_lt(rb.as_slice(), nb.as_slice()) {
            return Err(Error::ScalarOutOfRange);
        }
        if bytes_eq(sb.as_slice(), zero.as_slice()) || !be_lt(sb.as_slice(), nb.as_slice()) {
            return Err(Error::ScalarOutOfRange);
        }
        proof {
            if be_val(rb@) == 0 {
                lemma_be_val_injective(rb@, zero@);
            }
            if be_val(sb@) == 0 {
                lemma_be_val_injective(sb@, zero@);
            }
        }
        let out = copy_range(bytes, 0, 64);
        proof {
            assert(bytes@.subrange(0, 64) =~= bytes@);
            assert(out@.subrange(0, 32) =~= rb@);
            assert(out@.subrange(32, 64) =~= sb@);
        }
        Ok(PlainSignature { bytes: out })
    }

    /// The signature's 64-byte encoding.
    pub fn as_bytes(&self) -> (r: &Vec<u8>)
        ensures
            r@ == self@,
    {
        &self.bytes
    }

    /// The `r` half as a scalar.
    pub fn r(&self) -> (r: Scalar)
        requires
            self.wf(),
        ensures
            r.wf(),
            r.value() == sig_r(self@),
    {
        Scalar { bytes: copy_range(self.bytes.as_slice(), 0, 32) }
    }

    /// The `s` half as a scalar.
    pub fn s(&self) -> (r: Scalar)
        requires
            self.wf(),
        ensures
            r.wf(),
            r.value() == sig_s(self@),
    {
        Scalar { bytes: copy_range(self.bytes.as_slice(), 32, 64) }
    }

    /// Whether the `s` half is above half the order.
    pub fn is_s_high(&self) -> (r: bool)
        requires
            self.wf(),
        ensures
            r == (sig_s(self@) > half_order()),
    {
        let hb = crate::consts::half_order_bytes();
        let sb = copy_range(self.bytes.as_slice(), 32, 64);
        be_lt(hb.as_slice(), sb.as_slice())
    }

    /// The same signature with `s` replaced by its low representative.
    pub fn normalize_s(&self) -> (r: PlainSignature)
        requires
            self.wf(),
        ensures
            r.wf(),
            sig_r(r@) == sig_r(self@),
            sig_s(r@) == low_s(sig_s(self@)),
            sig_s(r@) <= half_order(),
    {
        proof {
            lemma_half_order();
        }
        let high = self.is_s_high();
        if high {
            let nb = curve_order_bytes();
            let zero = zero_bytes();
            let sb = copy_range(self.bytes.as_slice(), 32, 64);
            let neg = mod_sub(&zero, &sb, &nb);
            proof {
                lemma_small_mod((curve_order() - sig_s(self@)) as nat, curve_order());
            }
            let rb = copy_range(self.bytes.as_slice(), 0, 32);
            let out = crate::bytes::concat_bytes(&rb, &neg);
            proof {
                assert(out@.subrange(0, 32) =~= rb@);
                assert(out@.subrange(32, 64) =~= neg@);
            }
            PlainSignature { bytes: out }
        } else {
            let out = copy_range(self.bytes.as_slice(), 0, 64);
            proof {
                assert(self.bytes@.subrange(0, 64) =~= self.bytes@);
                assert(out@.subrange(0, 32) =~= self@.subrange(0, 32));
                assert(out@.subrange(32, 64) =~= self@.subrange(32, 64));
            }
            PlainSignature { bytes: out }
        }
    }
}

/// A recoverable signature: `r ‖ s ‖ id`, 65 bytes.
#[derive(Debug)]
pub struct Signature {
    pub bytes: Vec<u8>,
}

impl View for Signature {
    type V = Seq<u8>;

    open spec fn view(&self) -> Seq<u8> {
        self.bytes@
    }
}

impl PartialEq for Signature {
    fn eq(&self, other: &Signature) -> (r: bool) {
        bytes_eq(self.bytes.as_slice(), other.bytes.as_slice())
    }
}

impl vstd::std_specs::cmp::PartialEqSpecImpl for Signature {
    open spec fn obeys_eq_spec() -> bool {
        true
    }

    open spec fn eq_spec(&self, other: &Signature) -> bool {
        self.bytes@ == other.bytes@
    }
}

impl Signature {
    pub open spec fn wf(&self) -> bool {
        recoverable_valid(self@)
    }

    /// Attach a recovery identifier to a plain signature.
    ///
    /// This is the unchecked entry point: the identifier is trusted to
    /// describe the signer's key and is not re-derived, so a wrong one
    /// yields a signature that recovers a different key.
    pub fn new(signature: &PlainSignature, recovery_id: Id) -> (r: Result<Signature, Error>)
        requires
            signature.wf(),
            recovery_id.wf(),
        ensures
            r matches Ok(sig) ==> {
                &&& sig.wf()
                &&& sig@.subrange(0, 64) == signature@
                &&& sig@[64] == recovery_id.byte_spec()
            },
            r is Ok,
    {
        let mut out = copy_range(signature.as_bytes().as_slice(), 0, 64);
        let ghost before = out@;
        out.push(recovery_id.to_byte());
        proof {
            assert(signature@.subrange(0, 64) =~= signature@);
            assert(before =~= signature@);
            assert(out@.subrange(0, 64) =~= before);
        }
        Ok(Signature { bytes: out })
    }

    /// Parse a 65-byte wire encoding: length, then the two scalar halves,
    /// then the identifier byte.
    pub fn parse(bytes: &[u8]) -> (r: Result<Signature, Error>)
        ensures
            (r is Ok) == recoverable_valid(bytes@),
            r matches Ok(sig) ==> sig.wf() && sig@ == bytes@,
            r matches Err(e) ==> e == parse_error_of(bytes@),
    {
        if bytes.len() != 65 {
            return Err(Error::InvalidLength);
        }
        let head = copy_range(bytes, 0, 64);
        match PlainSignature::parse(head.as_slice()) {
            Ok(_) => {},
            Err(_) => {
                return Err(Error::ScalarOutOfRange);
            },
        }
        let idb = *vstd::slice::slice_index_get(bytes, 64);
        if idb != 0 && idb != 1 {
            return Err(Error::InvalidRecoveryId);
        }
        let out = copy_range(bytes, 0, 65);
        proof {
            assert(bytes@.subrange(0, 65) =~= bytes@);
            assert(out@.subrange(0, 64) =~= head@);
            assert(out@[64] == bytes@[64]);
        }
        Ok(Signature { bytes: out })
    }

    /// The recovery identifier stored in the last byte.
    pub fn recovery_id(&self) -> (r: Id)
        requires
            self.wf(),
        ensures
            r.wf(),
            r.byte_spec() == self@[64],
    {
        match Id::new(*vstd::slice::slice_index_get(self.bytes.as_slice(), 64)) {
            Ok(id) => id,
            Err(_) => {
                proof {
                    assert(false);
                }
                Id { value: 0 }
            },
        }
    }

    /// The `r` half as a scalar.
    pub fn r(&self) -> (r: Scalar)
        requires
            self.wf(),
        ensures
            r.wf(),
            r.value() == sig_r(self@.subrange(0, 64)),
    {
        proof {
            assert(self@.subrange(0, 64).subrange(0, 32) =~= self@.subrange(0, 32));
        }
        Scalar { bytes: copy_range(self.bytes.as_slice(), 0, 32) }
    }

    /// The `s` half as a scalar.
    pub fn s(&self) -> (r: Scalar)
        requires
            self.wf(),
        ensures
            r.wf(),
            r.value() == sig_s(self@.subrange(0, 64)),
    {
        proof {
            assert(self@.subrange(0, 64).subrange(32, 64) =~= self@.subrange(32, 64));
        }
        Scalar { bytes: copy_range(self.bytes.as_slice(), 32, 64) }
    }

    /// The signature's 65-byte encoding.
    pub fn as_bytes(&self) -> (r: &Vec<u8>)
        ensures
            r@ == self@,
    {
        &self.bytes
    }

    /// The signature's 65-byte encoding, as a fresh vector.
    pub fn to_bytes(&self) -> (r: Vec<u8>)
        requires
            self.wf(),
        ensures
            r@ == self@,
    {
        let out = copy_range(self.bytes.as_slice(), 0, 65);
        proof {
            assert(self.bytes@.subrange(0, 65) =~= self.bytes@);
        }
        out
    }

    /// Drop the recovery identifier, keeping the plain `r ‖ s` pair.
    pub fn to_plain(&self) -> (r: PlainSignature)
        requires
            self.wf(),
        ensures
            r.wf(),
            r@ == self@.subrange(0, 64),
    {
        PlainSignature { bytes: copy_range(self.bytes.as_slice(), 0, 64) }
    }
}

} // verus!
