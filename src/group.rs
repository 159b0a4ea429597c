//! Points of the two curve groups of BLS12-381, obtained only by validated decoding.
//!
//! A point is held as blst holds an affine point: each base-field coordinate is six
//! 64-bit limbs, least significant first, in Montgomery form. The point at infinity
//! has every limb zero.

use vstd::prelude::*;

use crate::convert::{g1_from_bytes, g2_from_bytes, g1_coords_of, g1_encoding_valid, g2_coords_of, g2_encoding_valid};
use crate::field::be_value;

verus! {

/// The order `p` of the base field,
/// 0x1a0111ea397fe69a4b1ba7b6434bacd764774b84f38512bf6730d2a0f6b0f6241eabfffeb153ffffb9feffffffffaaab,
/// written in 64-bit limbs.
pub open spec fn base_field_modulus() -> nat {
    let b: nat = 0x1_0000_0000_0000_0000;
    (((((0x1a0111ea397fe69anat * b + 0x4b1ba7b6434bacd7nat) * b + 0x64774b84f38512bfnat) * b
        + 0x6730d2a0f6b0f624nat) * b + 0x1eabfffeb153ffffnat) * b + 0xb9feffffffffaaabnat) as nat
}

/// The bytes of a base-field coordinate, with the three flag bits at the top of the
/// first byte cleared.
pub open spec fn flags_cleared(s: Seq<u8>) -> Seq<u8> {
    s.update(0, s[0] & 0x1f)
}

/// The compressed encoding of the point at infinity in `n` bytes: the compression
/// and infinity flags, then zeros.
pub open spec fn infinity_encoding(n: nat) -> Seq<u8> {
    seq![0xc0u8] + Seq::new((n - 1) as nat, |i: int| 0u8)
}

/// Six zero limbs: a coordinate of the point at infinity.
pub open spec fn zero_limbs() -> Seq<u64> {
    Seq::new(6, |i: int| 0u64)
}

/// The limbs of the coordinates `x` and `y` of a point of G1.
pub type G1Limbs = ([u64; 6], [u64; 6]);

/// The limbs of the coordinate halves `x0`, `x1`, `y0`, `y1` of a point of G2.
pub type G2Limbs = ([u64; 6], [u64; 6], [u64; 6], [u64; 6]);

/// A point of G1, the group of public keys: on the curve and in the prime-order
/// subgroup.
#[derive(Debug, Clone, Copy, PartialEq, Eq)]
pub struct G1 {
    x: [u64; 6],
    y: [u64; 6],
}

/// A point of G2, the group of signatures: on the curve and in the prime-order
/// subgroup. A coordinate `c0 + c1 * u` of the quadratic extension field is held as
/// its two halves.
#[derive(Debug, Clone, Copy, PartialEq, Eq)]
pub struct G2 {
    x0: [u64; 6],
    x1: [u64; 6],
    y0: [u64; 6],
    y1: [u64; 6],
}

impl G1 {
    /// The limbs of the two coordinates.
    pub closed spec fn coords(&self) -> (Seq<u64>, Seq<u64>) {
        (self.x@, self.y@)
    }

    /// The point is the one that some valid compressed encoding decodes to.
    pub open spec fn wf(&self) -> bool {
        exists|b: Seq<u8>| b.len() == 48 && #[trigger] g1_encoding_valid(b) && g1_coords_of(b) == self.coords()
    }

    /// The point with these coordinate limbs.
    pub(crate) fn from_limbs(x: [u64; 6], y: [u64; 6]) -> (r: G1)
        ensures
            r.coords() == (x@, y@),
    {
        G1 { x, y }
    }

    /// The point at infinity, the identity of the group, obtained by decoding its
    /// compressed encoding.
    pub fn identity() -> (r: G1)
        ensures
            r.coords() == (zero_limbs(), zero_limbs()),
            r.wf(),
    {
        let mut b = [0u8; 48];
        b[0] = 0xc0;
        assert(b@ =~= infinity_encoding(48));
        match g1_from_bytes(b) {
            Ok(g) => g,
            Err(_) => {
                proof {
                    assert(false);
                }
                G1 { x: [0u64; 6], y: [0u64; 6] }
            },
        }
    }

    /// The limbs of the coordinates `x` and `y`.
    pub fn to_limbs(&self) -> (r: G1Limbs)
        ensures
            (r.0@, r.1@) == self.coords(),
    {
        (self.x, self.y)
    }
}

impl G2 {
    /// The limbs of the four coordinate halves, in the order `x0`, `x1`, `y0`, `y1`.
    pub closed spec fn coords(&self) -> (Seq<u64>, Seq<u64>, Seq<u64>, Seq<u64>) {
        (self.x0@, self.x1@, self.y0@, self.y1@)
    }

    /// The point is the one that some valid compressed encoding decodes to.
    pub open spec fn wf(&self) -> bool {
        exists|b: Seq<u8>| b.len() == 96 && #[trigger] g2_encoding_valid(b) && g2_coords_of(b) == self.coords()
    }

    /// The point with these coordinate limbs.
    pub(crate) fn from_limbs(x0: [u64; 6], x1: [u64; 6], y0: [u64; 6], y1: [u64; 6]) -> (r: G2)
        ensures
            r.coords() == (x0@, x1@, y0@, y1@),
    {
        G2 { x0, x1, y0, y1 }
    }

    /// The point at infinity, the identity of the group, obtained by decoding its
    /// compressed encoding.
    pub fn identity() -> (r: G2)
        ensures
            r.coords() == (zero_limbs(), zero_limbs(), zero_limbs(), zero_limbs()),
            r.wf(),
    {
        let mut b = [0u8; 96];
        b[0] = 0xc0;
        assert(b@ =~= infinity_encoding(96));
        match g2_from_bytes(b) {
            Ok(g) => g,
            Err(_) => {
                proof {
                    assert(false);
                }
                G2 { x0: [0u64; 6], x1: [0u64; 6], y0: [0u64; 6], y1: [0u64; 6] }
            },
        }
    }

    /// The limbs of the coordinate halves `x0`, `x1`, `y0`, `y1`.
    pub fn to_limbs(&self) -> (r: G2Limbs)
        ensures
            (r.0@, r.1@, r.2@, r.3@) == self.coords(),
    {
        (self.x0, self.x1, self.y0, self.y1)
    }
}

} // verus!
