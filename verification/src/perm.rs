//! The hash permutation primitive, an external collaborator.
//!
//! The Hades permutation maps a full-width state of field elements to a new
//! state of the same width. Its internal round function is out of scope here:
//! the crate only relies on the permutation being a fixed function of the
//! input state, and gives its result a name, `perm_spec`, that the opening
//! contracts are stated over.

use crate::scalar::Scalar;
use crate::walk::WIDTH;
use vstd::prelude::*;

verus! {

/// The word sequences of a state of scalars.
pub open spec fn state_words(s: Seq<Scalar>) -> Seq<Seq<u64>> {
    s.map(|i: int, x: Scalar| x@)
}

/// What the Hades permutation returns on a full-width state, as the word
/// sequences of the permuted scalars. The permutation is a fixed function of
/// the input state alone; nothing further is assumed of its values.
pub uninterp spec fn perm_spec(state: Seq<Seq<u64>>) -> Seq<Seq<u64>>;

/// Relies on `dusk_hades::Strategy::perm` of `ScalarStrategy`: permutes a
/// `WIDTH`-element state of `BlsScalar` in place, as a fixed function (round
/// constants and MDS matrix are compiled in) of the input state alone. The
/// state crosses the call as raw little-endian words: `BlsScalar::from_raw`
/// reduces them into the field, `to_bytes` hands back the canonical words.
#[verifier::external_body]
#[allow(deprecated)]
pub(crate) fn hades_perm(state: &mut Vec<Scalar>)
    requires
        old(state)@.len() == WIDTH,
    ensures
        final(state)@.len() == WIDTH,
        state_words(final(state)@) == perm_spec(state_words(old(state)@)),
{
    let mut buf = [dusk_bls12_381::BlsScalar::zero(); WIDTH];
    for (i, s) in state.iter().enumerate() {
        buf[i] = dusk_bls12_381::BlsScalar::from_raw([s.w0, s.w1, s.w2, s.w3]);
    }
    dusk_hades::Strategy::perm(&mut dusk_hades::ScalarStrategy::new(), &mut buf);
    for (i, b) in buf.iter().enumerate() {
        let x = b.to_bytes();
        let w = |k: usize| u64::from_le_bytes(x[8 * k..8 * k + 8].try_into().unwrap());
        state[i] = Scalar { w0: w(0), w1: w(1), w2: w(2), w3: w(3) };
    }
}

} // verus!
