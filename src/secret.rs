//! Erasure of secret values held in memory.

use vstd::prelude::*;

use crate::field::{lemma_be_value_zero, Fr};

verus! {

/// Overwrites a single field element with zeros, the additive identity. The writes
/// are volatile, so they stay even where the element is not read again.
pub fn clear_fr(fr: &mut Fr)
    ensures
        final(fr).bytes() == Seq::new(32, |i: int| 0u8),
        final(fr).value() == 0,
        final(fr).wf(),
{
    fr.wipe();
}

/// Clearing is idempotent: `once` is an element as `clear_fr` leaves it, `twice` the
/// same element cleared again. Both hold the additive identity, with the same bytes.
pub proof fn lemma_clear_idempotent(once: Fr, twice: Fr)
    requires
        once.bytes() == Seq::new(32, |i: int| 0u8),
        twice.bytes() == Seq::new(32, |i: int| 0u8),
    ensures
        twice.bytes() == once.bytes(),
        once.value() == 0,
        twice.value() == 0,
{
    lemma_be_value_zero(once.bytes());
}

} // verus!
