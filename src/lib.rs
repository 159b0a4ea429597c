//! Conversions between bytes and the scalar field and curve groups of BLS12-381,
//! and erasure of secret scalars.

use vstd::prelude::*;

pub mod convert;
pub mod error;
pub mod field;
pub mod group;
pub mod secret;

verus! {

/// Size in bytes of an encoded secret key (a scalar, big-endian).
pub const SK_SIZE: usize = 32;

/// Size in bytes of a compressed public key (a point of G1).
pub const PK_SIZE: usize = 48;

/// Size in bytes of a compressed signature (a point of G2).
pub const SIG_SIZE: usize = 96;

} // verus!
