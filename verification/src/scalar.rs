//! A plain-value model of a BLS12-381 scalar field element.
//!
//! The opening logic never looks inside a field element: it stores
//! commitments, writes the small integers that encode occupancy masks, and
//! hands full-width states to the permutation. A `Scalar` therefore carries
//! the raw 256-bit value as four little-endian machine words, which is all
//! the logic reads or writes.

use vstd::prelude::*;

verus! {

/// A 256-bit field-element value, held as four little-endian 64-bit words.
///
/// `w0` is the least significant word. The additive identity is the all-zero
/// value, and small integers (such as occupancy masks) occupy `w0` alone.
#[derive(Clone, Copy, PartialEq, Eq, Structural, Debug)]
pub struct Scalar {
    pub w0: u64,
    pub w1: u64,
    pub w2: u64,
    pub w3: u64,
}

impl View for Scalar {
    type V = Seq<u64>;

    open spec fn view(&self) -> Seq<u64> {
        seq![self.w0, self.w1, self.w2, self.w3]
    }
}

/// The word sequence of the scalar that encodes the small integer `v`.
pub open spec fn scalar_words(v: u64) -> Seq<u64> {
    seq![v, 0u64, 0u64, 0u64]
}

impl Scalar {
    /// The scalar encoding the small integer `v`.
    pub fn from_u64(v: u64) -> (r: Scalar)
        ensures
            r@ == scalar_words(v),
    {
        Scalar { w0: v, w1: 0, w2: 0, w3: 0 }
    }

    /// The additive identity.
    pub fn zero() -> (r: Scalar)
        ensures
            r@ == scalar_words(0),
    {
        Scalar::from_u64(0)
    }

    /// The multiplicative identity, also the mask of a single occupied child.
    pub fn one() -> (r: Scalar)
        ensures
            r@ == scalar_words(1),
    {
        Scalar::from_u64(1)
    }
}

/// Two scalars with the same word sequence are the same value.
pub proof fn lemma_scalar_view_injective(a: Scalar, b: Scalar)
    requires
        a@ == b@,
    ensures
        a == b,
{
    assert(a.w0 == a@[0] && a.w1 == a@[1] && a.w2 == a@[2] && a.w3 == a@[3]);
    assert(b.w0 == b@[0] && b.w1 == b@[1] && b.w2 == b@[2] && b.w3 == b@[3]);
}

} // verus!
