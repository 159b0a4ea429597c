//! Conversion between bytes and the scalar field and curve groups of BLS12-381.

use vstd::prelude::*;

use crate::error::Error;
use crate::{PK_SIZE, SIG_SIZE, SK_SIZE};
use crate::group::{base_field_modulus, flags_cleared, infinity_encoding, zero_limbs, G1, G1Limbs, G2, G2Limbs};
use crate::field::{
    be_value, field_order, le_value, lemma_be_value_injective, lemma_be_value_zero, reversed, Fr,
};

verus! {

/// The error codes of blst, carried opaquely.
#[verifier::external_type_specification]
#[verifier::external_body]
pub struct ExBlstError(blst::BLST_ERROR);


/// Domain-separation tag of every index derivation,
/// the ASCII text `BLS_SIG_BLS12381G2_XMD:SHA-256_SSWU_RO_NUL_`.
pub const DST: [u8; 43] = [
    66, 76, 83, 95, 83, 73, 71, 95, 66, 76, 83, 49, 50, 51, 56, 49, 71, 50, 95, 88, 77, 68, 58,
    83, 72, 65, 45, 50, 53, 54, 95, 83, 83, 87, 85, 95, 82, 79, 95, 78, 85, 76, 95,
];

/// The field element that hash-to-field (expand_message_xmd with SHA-256, 48 bytes
/// reduced modulo the field order) gives for a message under a tag.
pub uninterp spec fn hash_to_field_value(msg: Seq<u8>, dst: Seq<u8>) -> nat;

/// Relies on `blst::blst_scalar::hash_to`: it expands `msg` under `dst` to 48 bytes and
/// reduces them modulo the field order. It returns the little-endian bytes of the
/// result where that is non-zero, and `None` where it is zero.
#[verifier::external_body]
fn hash_to(msg: &[u8], dst: &[u8]) -> (r: Option<[u8; 32]>)
    ensures
        match r {
            Some(v) => le_value(v@) == hash_to_field_value(msg@, dst@)
                && 0 < hash_to_field_value(msg@, dst@) < field_order(),
            None => hash_to_field_value(msg@, dst@) == 0,
        },
{
    blst::blst_scalar::hash_to(msg, dst).map(|s| s.b)
}

/// The field element for the output of blst's hash-to-field: the little-endian bytes
/// of the element, or `None` where the backend produced none. `None` is not swallowed:
/// it comes out as `HashToFieldFailed`.
pub fn scalar_from_hash_output(h: Option<[u8; 32]>) -> (r: Result<Fr, Error>)
    requires
        h matches Some(v) ==> le_value(v@) < field_order(),
    ensures
        r.is_err() == h.is_none(),
        r matches Err(e) ==> e == Error::HashToFieldFailed,
        h matches Some(v) ==> (r matches Ok(f) && f.wf() && f.bytes() == reversed(v@)),
{
    match h {
        Some(v) => {
            let mut be = [0u8; 32];
            let mut i: usize = 0;
            while i < 32
                invariant
                    0 <= i <= 32,
                    forall|j: int| 0 <= j < i ==> be@[j] == v@[31 - j],
                decreases 32 - i,
            {
                be[i] = v[31 - i];
                i += 1;
            }
            assert(be@ =~= reversed(v@));
            Ok(Fr::from_canonical(be))
        },
        None => Err(Error::HashToFieldFailed),
    }
}

/// Hashes `msg` to a field element under the domain-separation tag `dst`. Every
/// message, the empty one included, is valid input; the one failure is blst's hash
/// step producing no element (where the hash value is zero), reported as
/// `HashToFieldFailed`.
pub fn hash_to_field_with_dst(msg: &[u8], dst: &[u8]) -> (r: Result<Fr, Error>)
    ensures
        r.is_err() <==> hash_to_field_value(msg@, dst@) == 0,
        r matches Err(e) ==> e == Error::HashToFieldFailed,
        r matches Ok(f) ==> f.wf() && f.value() == hash_to_field_value(msg@, dst@),
{
    let h = hash_to(msg, dst);
    scalar_from_hash_output(h)
}

/// Hashes `msg` to a field element under the tag `DST`.
fn hash_to_field(msg: &[u8]) -> (r: Result<Fr, Error>)
    ensures
        r.is_err() <==> hash_to_field_value(msg@, DST@) == 0,
        r matches Err(e) ==> e == Error::HashToFieldFailed,
        r matches Ok(f) ==> f.wf() && f.value() == hash_to_field_value(msg@, DST@),
{
    hash_to_field_with_dst(msg, &DST)
}

/// Derives the field element of a derivation index: hash-to-field under `DST`.
/// `HashToFieldFailed` reports a fault of the hashing backend, never bad input.
pub fn derivation_index_into_fr(index: &[u8]) -> (r: Result<Fr, Error>)
    ensures
        r.is_err() <==> hash_to_field_value(index@, DST@) == 0,
        r matches Err(e) ==> e == Error::HashToFieldFailed,
        r matches Ok(f) ==> f.wf() && f.value() == hash_to_field_value(index@, DST@),
{
    hash_to_field(index)
}

/// Derivation is deterministic: two elements derived from the same index have the
/// same canonical bytes.
pub proof fn lemma_derivation_deterministic(index: Seq<u8>, a: Fr, b: Fr)
    requires
        a.wf(),
        b.wf(),
        a.value() == hash_to_field_value(index, DST@),
        b.value() == hash_to_field_value(index, DST@),
    ensures
        a.bytes() == b.bytes(),
{
    lemma_be_value_injective(a.bytes(), b.bytes());
}

/// Relies on `blst::min_pk::SecretKey::deserialize`: it accepts 32 bytes exactly when,
/// read big-endian, they denote a number above zero and below the field order.
#[verifier::external_body]
fn secret_key_in_range(bytes: &[u8; 32]) -> (r: bool)
    ensures
        r == (0 < be_value(bytes@) < field_order()),
{
    blst::min_pk::SecretKey::deserialize(bytes).is_ok()
}

/// Whether every byte is zero. The loop reads all bytes whatever they hold.
fn all_zero(bytes: &[u8; 32]) -> (r: bool)
    ensures
        r == (be_value(bytes@) == 0),
{
    let mut acc: u8 = 0;
    let mut i: usize = 0;
    while i < 32
        invariant
            0 <= i <= 32,
            (acc == 0) <==> (forall|j: int| 0 <= j < i ==> bytes@[j] == 0),
        decreases 32 - i,
    {
        let b = bytes[i];
        let next = acc | b;
        assert((next == 0) <==> (acc == 0 && b == 0)) by (bit_vector)
            requires
                next == acc | b,
        ;
        acc = next;
        i += 1;
    }
    proof {
        lemma_be_value_zero(bytes@);
    }
    acc == 0
}

/// Decodes a secret key: the big-endian encoding of a field element. It succeeds
/// exactly on canonical encodings, those that denote a number below the field order,
/// and the element then encodes back to the same bytes.
pub fn fr_from_bytes(bytes: [u8; SK_SIZE]) -> (r: Result<Fr, Error>)
    ensures
        r.is_ok() == (be_value(bytes@) < field_order()),
        match r {
            Ok(f) => f.wf() && f.bytes() == bytes@,
            Err(e) => e == Error::InvalidBytes,
        },
{
    let zero = all_zero(&bytes);
    let in_range = secret_key_in_range(&bytes);
    if zero || in_range {
        Ok(Fr::from_canonical(bytes))
    } else {
        Err(Error::InvalidBytes)
    }
}

/// Whether 48 bytes are the compressed encoding of a point of G1: the compression
/// flag is set, the point lies on the curve and in the prime-order subgroup.
pub uninterp spec fn g1_encoding_valid(bytes: Seq<u8>) -> bool;

/// The limbs of the coordinates `x` and `y` of the point that 48 compressed bytes
/// decode to.
pub uninterp spec fn g1_coords_of(bytes: Seq<u8>) -> (Seq<u64>, Seq<u64>);

/// Whether 96 bytes are the compressed encoding of a point of G2: the compression
/// flag is set, the point lies on the curve and in the prime-order subgroup.
pub uninterp spec fn g2_encoding_valid(bytes: Seq<u8>) -> bool;

/// The limbs of the coordinate halves `x0`, `x1`, `y0`, `y1` of the point that 96
/// compressed bytes decode to.
pub uninterp spec fn g2_coords_of(bytes: Seq<u8>) -> (Seq<u64>, Seq<u64>, Seq<u64>, Seq<u64>);

/// Relies on `blst::min_sig::Signature::sig_validate` with no check for infinity, and on
/// blst's conversion of the result to `blst_p1_affine`, whose limbs it hands out. For 48
/// bytes it refuses those without the compression flag (the top bit). With the infinity
/// flag, it takes the point at infinity, all limbs zero, where every other bit is zero.
/// Otherwise it refuses an `x` (the bytes with the three flag bits cleared) that is not
/// below the base field modulus, decompresses, and checks that the point is in G1.
#[verifier::external_body]
fn p1_uncompress_checked(bytes: &[u8; 48]) -> (r: Result<G1Limbs, blst::BLST_ERROR>)
    ensures
        r.is_ok() == g1_encoding_valid(bytes@),
        r matches Ok(c) ==> (c.0@, c.1@) == g1_coords_of(bytes@),
        bytes@[0] & 0x80 == 0 ==> r.is_err(),
        bytes@ == infinity_encoding(48) ==> r.is_ok(),
        bytes@[0] & 0x40 != 0 && bytes@ != infinity_encoding(48) ==> r.is_err(),
        r matches Ok(c) ==> (bytes@ == infinity_encoding(48) ==> c.0@ == zero_limbs() && c.1@ == zero_limbs()),
        bytes@[0] & 0x40 == 0 && be_value(flags_cleared(bytes@)) >= base_field_modulus() ==> r.is_err(),
{
    match blst::min_sig::Signature::sig_validate(bytes, false) {
        Ok(sig) => {
            let p = blst::blst_p1_affine::from(sig);
            Ok((p.x.l, p.y.l))
        },
        Err(e) => Err(e),
    }
}

/// Relies on `blst::min_pk::Signature::sig_validate` with no check for infinity, and on
/// blst's conversion of the result to `blst_p2_affine`, whose limbs it hands out. For 96
/// bytes it refuses those without the compression flag (the top bit). With the infinity
/// flag, it takes the point at infinity, all limbs zero, where every other bit is zero.
/// Otherwise it refuses an `x1` (the first 48 bytes with the three flag bits cleared) or
/// an `x0` (the last 48 bytes) that is not below the base field modulus, decompresses,
/// and checks that the point is in G2.
#[verifier::external_body]
fn p2_uncompress_checked(bytes: &[u8; 96]) -> (r: Result<G2Limbs, blst::BLST_ERROR>)
    ensures
        r.is_ok() == g2_encoding_valid(bytes@),
        r matches Ok(c) ==> (c.0@, c.1@, c.2@, c.3@) == g2_coords_of(bytes@),
        bytes@[0] & 0x80 == 0 ==> r.is_err(),
        bytes@ == infinity_encoding(96) ==> r.is_ok(),
        bytes@[0] & 0x40 != 0 && bytes@ != infinity_encoding(96) ==> r.is_err(),
        r matches Ok(c) ==> (bytes@ == infinity_encoding(96) ==> c.0@ == zero_limbs() && c.1@ == zero_limbs() && c.2@ == zero_limbs() && c.3@ == zero_limbs()),
        bytes@[0] & 0x40 == 0 && (be_value(flags_cleared(bytes@.subrange(0, 48))) >= base_field_modulus() || be_value(bytes@.subrange(48, 96)) >= base_field_modulus()) ==> r.is_err(),
{
    match blst::min_pk::Signature::sig_validate(bytes, false) {
        Ok(sig) => {
            let p = blst::blst_p2_affine::from(sig);
            Ok((p.x.fp[0].l, p.x.fp[1].l, p.y.fp[0].l, p.y.fp[1].l))
        },
        Err(e) => Err(e),
    }
}

/// Decodes a public key: a compressed point of G1. It succeeds exactly on valid
/// encodings, and then returns the point that the bytes encode; every failure is
/// `InvalidBytes`.
pub fn g1_from_bytes(bytes: [u8; PK_SIZE]) -> (r: Result<G1, Error>)
    ensures
        r.is_ok() == g1_encoding_valid(bytes@),
        match r {
            Ok(g) => g.coords() == g1_coords_of(bytes@) && g.wf(),
            Err(e) => e == Error::InvalidBytes,
        },
        bytes@[0] & 0x80 == 0 ==> r.is_err(),
        bytes@[0] & 0x40 != 0 && bytes@ != infinity_encoding(48) ==> r.is_err(),
        bytes@ == infinity_encoding(48) ==> (r matches Ok(g) && g.coords() == (
        zero_limbs(),
        zero_limbs(),
        )),
        bytes@[0] & 0x40 == 0 && be_value(flags_cleared(bytes@)) >= base_field_modulus()
            ==> r.is_err(),
{
    match p1_uncompress_checked(&bytes) {
        Ok(c) => Ok(G1::from_limbs(c.0, c.1)),
        Err(_) => Err(Error::InvalidBytes),
    }
}

/// Decodes a signature: a compressed point of G2. It succeeds exactly on valid
/// encodings, and then returns the point that the bytes encode; every failure is
/// `InvalidBytes`.
pub fn g2_from_bytes(bytes: [u8; SIG_SIZE]) -> (r: Result<G2, Error>)
    ensures
        r.is_ok() == g2_encoding_valid(bytes@),
        match r {
            Ok(g) => g.coords() == g2_coords_of(bytes@) && g.wf(),
            Err(e) => e == Error::InvalidBytes,
        },
        bytes@[0] & 0x80 == 0 ==> r.is_err(),
        bytes@[0] & 0x40 != 0 && bytes@ != infinity_encoding(96) ==> r.is_err(),
        bytes@ == infinity_encoding(96) ==> (r matches Ok(g) && g.coords() == (
        zero_limbs(),
        zero_limbs(),
        zero_limbs(),
        zero_limbs(),
        )),
        bytes@[0] & 0x40 == 0 && (be_value(flags_cleared(bytes@.subrange(0, 48)))
            >= base_field_modulus() || be_value(bytes@.subrange(48, 96)) >= base_field_modulus())
            ==> r.is_err(),
{
    match p2_uncompress_checked(&bytes) {
        Ok(c) => Ok(G2::from_limbs(c.0, c.1, c.2, c.3)),
        Err(_) => Err(Error::InvalidBytes),
    }
}

/// Decoding a point is deterministic: two points decoded from the same bytes have the
/// same coordinates, in G1 and in G2.
pub proof fn lemma_point_decoding_deterministic(
    bytes1: Seq<u8>,
    a1: G1,
    b1: G1,
    bytes2: Seq<u8>,
    a2: G2,
    b2: G2,
)
    requires
        a1.coords() == g1_coords_of(bytes1),
        b1.coords() == g1_coords_of(bytes1),
        a2.coords() == g2_coords_of(bytes2),
        b2.coords() == g2_coords_of(bytes2),
    ensures
        a1.coords() == b1.coords(),
        a2.coords() == b2.coords(),
{
}

} // verus!
