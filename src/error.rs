//! The errors of this crate.

use vstd::prelude::*;

verus! {

/// Why a conversion failed.
#[derive(Debug, Clone, Copy, PartialEq, Eq, Structural)]
pub enum Error {
    /// The bytes are not a valid encoding of the requested value.
    InvalidBytes,
    /// The hash-to-field backend produced no element. This points to a fault in how
    /// the hashing backend is built or configured, not to bad input: callers should
    /// treat it as fatal and not retry.
    HashToFieldFailed,
}

} // verus!
