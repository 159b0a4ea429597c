//! The scalar field of BLS12-381 and its big-endian byte model.

use vstd::prelude::*;

verus! {

/// The order `r` of the scalar field,
/// 0x73eda753299d7d483339d80809a1d80553bda402fffe5bfeffffffff00000001,
/// written in 64-bit limbs.
pub open spec fn field_order() -> nat {
    let b: nat = 0x1_0000_0000_0000_0000;
    (((0x73eda753299d7d48nat * b + 0x3339d80809a1d805nat) * b + 0x53bda402fffe5bfenat) * b
        + 0xffffffff00000001nat) as nat
}

/// The number that a byte string denotes, most significant byte first.
pub open spec fn be_value(s: Seq<u8>) -> nat
    decreases s.len(),
{
    if s.len() == 0 {
        0
    } else {
        (be_value(s.drop_last()) * 256 + s.last()) as nat
    }
}

/// The bytes of `s` in the opposite order.
pub open spec fn reversed(s: Seq<u8>) -> Seq<u8> {
    Seq::new(s.len(), |i: int| s[s.len() - 1 - i])
}

/// The number that a byte string denotes, least significant byte first.
pub open spec fn le_value(s: Seq<u8>) -> nat {
    be_value(reversed(s))
}

/// A big-endian value is zero exactly when every byte is zero.
pub proof fn lemma_be_value_zero(s: Seq<u8>)
    ensures
        (be_value(s) == 0) <==> (forall|i: int| 0 <= i < s.len() ==> s[i] == 0),
    decreases s.len(),
{
    if s.len() > 0 {
        lemma_be_value_zero(s.drop_last());
        if be_value(s) == 0 {
            assert forall|i: int| 0 <= i < s.len() implies s[i] == 0 by {
                if i < s.len() - 1 {
                    assert(s[i] == s.drop_last()[i]);
                }
            }
        } else {
            if forall|i: int| 0 <= i < s.len() ==> s[i] == 0 {
                assert forall|i: int| 0 <= i < s.drop_last().len() implies s.drop_last()[i] == 0 by {
                    assert(s.drop_last()[i] == s[i]);
                }
            }
        }
    }
}

/// Byte strings of one length that denote the same number are the same.
pub proof fn lemma_be_value_injective(s: Seq<u8>, t: Seq<u8>)
    requires
        s.len() == t.len(),
        be_value(s) == be_value(t),
    ensures
        s == t,
    decreases s.len(),
{
    if s.len() > 0 {
        let x = be_value(s.drop_last());
        let y = be_value(t.drop_last());
        let a = s.last() as int;
        let b = t.last() as int;
        assert(x == y && a == b) by (nonlinear_arith)
            requires
                x * 256 + a == y * 256 + b,
                0 <= a < 256,
                0 <= b < 256,
                x >= 0,
                y >= 0,
        ;
        lemma_be_value_injective(s.drop_last(), t.drop_last());
        assert(s =~= t.drop_last().push(t.last()));
        assert(t =~= t.drop_last().push(t.last()));
    }
}

/// Relies on `zeroize::Zeroize` for arrays of `u8`: each byte is set to zero by a
/// volatile write, which the compiler does not remove as a dead store.
#[verifier::external_body]
fn wipe_bytes(bytes: &mut [u8; 32])
    ensures
        final(bytes)@ == Seq::new(32, |i: int| 0u8),
{
    zeroize::Zeroize::zeroize(bytes)
}

/// An element of the scalar field, held as its canonical big-endian encoding.
#[derive(Debug, Clone, Copy)]
pub struct Fr {
    be: [u8; 32],
}

impl Fr {
    /// The canonical big-endian encoding.
    pub closed spec fn bytes(&self) -> Seq<u8> {
        self.be@
    }

    /// The field element as a number.
    pub open spec fn value(&self) -> nat {
        be_value(self.bytes())
    }

    /// The encoding has 32 bytes and denotes a canonical representative, below the
    /// field order.
    pub open spec fn wf(&self) -> bool {
        self.bytes().len() == 32 && self.value() < field_order()
    }

    /// The element whose canonical encoding is `be`.
    pub(crate) fn from_canonical(be: [u8; 32]) -> (r: Fr)
        requires
            be_value(be@) < field_order(),
        ensures
            r.bytes() == be@,
            r.wf(),
    {
        Fr { be }
    }

    /// The additive identity.
    pub fn zero() -> (r: Fr)
        ensures
            r.value() == 0,
            r.bytes() == Seq::new(32, |i: int| 0u8),
            r.wf(),
    {
        let r = Fr { be: [0u8; 32] };
        assert(r.bytes() =~= Seq::new(32, |i: int| 0u8));
        proof {
            lemma_be_value_zero(r.bytes());
        }
        r
    }

    /// Overwrites the encoding with zeros, by writes that the compiler keeps.
    pub(crate) fn wipe(&mut self)
        ensures
            final(self).bytes() == Seq::new(32, |i: int| 0u8),
            final(self).value() == 0,
            final(self).wf(),
    {
        wipe_bytes(&mut self.be);
        proof {
            lemma_be_value_zero(self.bytes());
        }
    }

    /// The canonical big-endian encoding.
    pub fn to_bytes_be(&self) -> (r: [u8; 32])
        ensures
            r@ == self.bytes(),
    {
        self.be
    }
}

impl PartialEq for Fr {
    /// Equality of the canonical encodings, byte by byte.
    fn eq(&self, other: &Fr) -> (r: bool)
        ensures
            r == (self.bytes() == other.bytes()),
    {
        let mut same = true;
        let mut i: usize = 0;
        while i < 32
            invariant
                0 <= i <= 32,
                same == (forall|j: int| 0 <= j < i ==> self.be@[j] == other.be@[j]),
            decreases 32 - i,
        {
            if self.be[i] != other.be[i] {
                same = false;
            }
            i += 1;
        }
        proof {
            if same {
                assert(self.be@ =~= other.be@);
            }
        }
        same
    }
}

impl vstd::std_specs::cmp::PartialEqSpecImpl for Fr {
    open spec fn obeys_eq_spec() -> bool {
        true
    }

    open spec fn eq_spec(&self, other: &Fr) -> bool {
        self.bytes() == other.bytes()
    }
}

impl Eq for Fr {

}

} // verus!
