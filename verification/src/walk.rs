//! The tree-walk snapshot that an opening is assembled from.
//!
//! The annotated tree itself is an external collaborator: it hands this crate
//! an ordered walk, root to leaf, of the levels it visited on the way down to
//! a leaf. Each visited level carries the offset of the child the walk took
//! and the up-to-`WIDTH - 1` optional children of the level, each present
//! child being either a leaf (contributing its hash) or an internal subtree
//! root (contributing its precomputed annotation).

use crate::scalar::{scalar_words, Scalar};
use vstd::arithmetic::power2::pow2;
use vstd::prelude::*;

verus! {

/// The number of field elements the permutation operates on per call:
/// the tree arity plus one slot reserved for the occupancy mask.
pub const WIDTH: usize = 5;

/// One optional child of a visited tree level.
#[derive(Clone, Copy, PartialEq, Eq, Structural, Debug)]
pub enum Child {
    /// No child at this position.
    Empty,
    /// A leaf, contributing its hash as commitment.
    Leaf(Scalar),
    /// An internal subtree root, contributing its precomputed annotation.
    Internal(Scalar),
}

impl Child {
    /// Whether a child is present at this position.
    pub open spec fn is_occupied(self) -> bool {
        !(self is Empty)
    }

    /// The word sequence this child contributes to its slot: the commitment
    /// of a present child, the additive identity for an absent one.
    pub open spec fn commitment_words(self) -> Seq<u64> {
        match self {
            Child::Empty => scalar_words(0),
            Child::Leaf(s) => s@,
            Child::Internal(s) => s@,
        }
    }

    /// Whether a child is present at this position.
    pub fn occupied(&self) -> (r: bool)
        ensures
            r == self.is_occupied(),
    {
        !matches!(self, Child::Empty)
    }

    /// The commitment this child contributes to its slot.
    pub fn commitment(&self) -> (r: Scalar)
        ensures
            r@ == self.commitment_words(),
    {
        match self {
            Child::Empty => Scalar::zero(),
            Child::Leaf(s) => *s,
            Child::Internal(s) => *s,
        }
    }
}

/// One level visited by the tree walk, root-to-leaf order.
#[derive(Clone, PartialEq, Eq, Debug)]
pub struct WalkLevel {
    /// The position, among the `WIDTH - 1` children, of the child the walk
    /// descended into.
    pub offset: usize,
    /// The ordered children of this level; exactly `WIDTH - 1` entries.
    pub children: Vec<Child>,
}

impl WalkLevel {
    /// A well-formed visited level: full child list, offset in range.
    pub open spec fn wf(self) -> bool {
        &&& self.children@.len() == WIDTH - 1
        &&& self.offset < WIDTH - 1
    }
}

/// The integer occupancy mask of a child list: bit `i` is set iff the child
/// at position `i` is present.
pub open spec fn mask_of(ch: Seq<Child>) -> nat
    decreases ch.len(),
{
    if ch.len() == 0 {
        0
    } else {
        mask_of(ch.drop_last()) + if ch.last().is_occupied() {
            pow2((ch.len() - 1) as nat)
        } else {
            0
        }
    }
}

/// The occupancy mask of a child list is below `pow2` of its length; in
/// particular a full child list's mask fits comfortably in one word.
pub proof fn lemma_mask_of_bound(ch: Seq<Child>)
    ensures
        mask_of(ch) < pow2(ch.len()),
    decreases ch.len(),
{
    if ch.len() == 0 {
        vstd::arithmetic::power2::lemma2_to64();
    } else {
        lemma_mask_of_bound(ch.drop_last());
        vstd::arithmetic::power2::lemma_pow2_unfold(ch.len());
    }
}

/// The mask of a child list depends only on which positions are occupied.
pub proof fn lemma_mask_of_congruent(a: Seq<Child>, b: Seq<Child>)
    requires
        a.len() == b.len(),
        forall|i: int| 0 <= i < a.len() ==> a[i].is_occupied() == b[i].is_occupied(),
    ensures
        mask_of(a) == mask_of(b),
    decreases a.len(),
{
    if a.len() > 0 {
        lemma_mask_of_congruent(a.drop_last(), b.drop_last());
    }
}

} // verus!
