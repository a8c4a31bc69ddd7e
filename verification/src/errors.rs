//! Failures reported by the protocol's checks.

use vstd::prelude::*;

verus! {

/// Why a verification routine or a combination attempt rejected its input.
#[derive(Debug, Clone, Copy, PartialEq, Eq, Structural)]
pub enum Error {
    /// A member index lies outside `[1, n]`.
    InvalidIndex { index: usize },
    /// The index at this position of a submitted set is not strictly greater
    /// than its predecessor (covers duplicates and disorder).
    InvalidOrder { index: usize },
    /// A cryptographic check did not hold: a DLEQ challenge mismatch, a
    /// pairing inequality, a randomness digest mismatch, or a verification
    /// key that differs from the published list.
    VerifyFailed,
}

} // verus!
