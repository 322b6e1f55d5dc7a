//! The failure modes of signature construction, recovery and verification.

use vstd::prelude::*;

verus! {

/// Everything that can go wrong in this crate.
///
/// Every operation is all-or-nothing: a failure surfaces immediately and
/// carries no partial result. The variants stay coarse on purpose: a caller
/// can see which operation failed, but not which internal step of it.
#[derive(Clone, Copy, Debug, PartialEq, Eq, Structural)]
pub enum Error {
    /// A byte string had the wrong length for its wire format.
    InvalidLength,
    /// A recovery identifier byte was neither 0 nor 1.
    InvalidRecoveryId,
    /// A scalar encoding was zero or not canonical (not below the order).
    ScalarOutOfRange,
    /// A signature's `s` half was above half the order.
    HighSRejected,
    /// Reconstruction of the signer's key from a signature did not succeed.
    PointRecoveryFailed,
    /// Trial recovery found no identifier matching the given key.
    RecoveryFailed,
    /// A public key encoding did not describe a point on the curve.
    InvalidPublicKey,
    /// The verification equation held for a different `r` than the one given.
    SignatureMismatch,
    /// The verification equation could not be brought to a decision.
    VerificationFailed,
}

} // verus!
