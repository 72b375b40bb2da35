//! The algebraic laws of the assembled openings.
//!
//! Each proof function here states one law of the assembly algorithm over
//! the specification functions that `PoseidonBranch::from_walk` is contracted
//! against, so the laws hold of every opening that contract describes.

use crate::branch::{
    opening_level_words, opening_offset, produced_of, real_level_words, PoseidonBranch,
    PoseidonLevel,
};
use crate::scalar::{lemma_scalar_view_injective, scalar_words};
use crate::walk::{lemma_mask_of_bound, lemma_mask_of_congruent, mask_of, Child, WalkLevel, WIDTH};
use vstd::arithmetic::power2::lemma2_to64;
use vstd::prelude::*;

verus! {

/// Determinism: two openings assembled from the same walk at the same depth
/// agree in every observable field — every slot of every level and every
/// selected index — and so in particular in their roots.
pub proof fn lemma_deterministic<const DEPTH: usize>(
    a: PoseidonBranch<DEPTH>,
    b: PoseidonBranch<DEPTH>,
    walk: Seq<WalkLevel>,
)
    requires
        a.describes(walk),
        b.describes(walk),
    ensures
        a.levels@.len() == b.levels@.len(),
        forall|k: int| 0 <= k < DEPTH ==> (#[trigger] a.levels@[k]).offset == b.levels@[k].offset,
        forall|k: int| 0 <= k < DEPTH ==> (#[trigger] a.levels@[k]).level@ == b.levels@[k].level@,
        DEPTH >= 1 ==> a.root_spec() == b.root_spec(),
        DEPTH >= 1 ==> a.selected_value_spec() == b.selected_value_spec(),
{
    assert forall|k: int|
        0 <= k < DEPTH implies (#[trigger] a.levels@[k]).level@ == b.levels@[k].level@ by {
        let la = a.levels@[k].level@;
        let lb = b.levels@[k].level@;
        assert(a.levels@[k].words() == b.levels@[k].words());
        assert(la.len() == a.levels@[k].words().len());
        assert(lb.len() == b.levels@[k].words().len());
        assert forall|j: int| 0 <= j < la.len() implies la[j] == lb[j] by {
            assert(la[j]@ == a.levels@[k].words()[j]);
            assert(lb[j]@ == b.levels@[k].words()[j]);
            lemma_scalar_view_injective(la[j], lb[j]);
        }
        assert(la =~= lb);
    }
}

/// Mask correctness: bit `i` of the occupancy mask of a full child list is
/// set exactly when the child at position `i` is present.
pub proof fn lemma_mask_bit(ch: Seq<Child>, i: int)
    requires
        ch.len() == WIDTH - 1,
        0 <= i < WIDTH - 1,
    ensures
        ((mask_of(ch) as u64) >> (i as u64)) & 1u64 == (if ch[i].is_occupied() {
            1u64
        } else {
            0u64
        }),
{
    lemma2_to64();
    let c3 = ch.drop_last();
    let c2 = c3.drop_last();
    let c1 = c2.drop_last();
    let c0 = c1.drop_last();
    assert(c0.len() == 0);
    assert(c1[0] == ch[0] && c2[0] == ch[0] && c3[0] == ch[0]);
    assert(c2[1] == ch[1] && c3[1] == ch[1]);
    assert(c3[2] == ch[2]);
    let b0: u64 = if ch[0].is_occupied() { 1 } else { 0 };
    let b1: u64 = if ch[1].is_occupied() { 1 } else { 0 };
    let b2: u64 = if ch[2].is_occupied() { 1 } else { 0 };
    let b3: u64 = if ch[3].is_occupied() { 1 } else { 0 };
    assert(mask_of(c0) == 0);
    assert(mask_of(c1) == b0);
    assert(mask_of(c2) == b0 + 2 * b1);
    assert(mask_of(c3) == b0 + 2 * b1 + 4 * b2);
    assert(mask_of(ch) == b0 + 2 * b1 + 4 * b2 + 8 * b3);
    let m: u64 = mask_of(ch) as u64;
    assert(m == b0 + 2 * b1 + 4 * b2 + 8 * b3);
    assert(((m >> 0u64) & 1u64 == b0) && ((m >> 1u64) & 1u64 == b1) && ((m >> 2u64) & 1u64 == b2)
        && ((m >> 3u64) & 1u64 == b3)) by (bit_vector)
        requires
            m == b0 + 2 * b1 + 4 * b2 + 8 * b3,
            b0 <= 1,
            b1 <= 1,
            b2 <= 1,
            b3 <= 1,
    ;
}

/// Mask correctness at the opening: for every real level of an assembled
/// opening, the word in slot 0 has bit `i` set exactly when the source
/// level's child at position `i` was present.
pub proof fn lemma_mask_correct<const DEPTH: usize>(
    b: PoseidonBranch<DEPTH>,
    walk: Seq<WalkLevel>,
    k: int,
    i: int,
)
    requires
        b.describes(walk),
        forall|t: int| 0 <= t < walk.len() ==> (#[trigger] walk[t]).wf(),
        0 <= k < produced_of(walk, DEPTH as nat),
        0 <= i < WIDTH - 1,
    ensures
        (b.levels@[k].words()[0][0] >> (i as u64)) & 1u64 == (if walk[walk.len() - 1
            - k].children@[i].is_occupied() {
            1u64
        } else {
            0u64
        }),
{
    let w = walk[walk.len() - 1 - k];
    assert(b.levels@[k].words() == opening_level_words(walk, DEPTH as nat, k as nat));
    assert(b.levels@[k].words()[0] == scalar_words(mask_of(w.children@) as u64));
    assert(b.levels@[k].words()[0][0] == mask_of(w.children@) as u64);
    lemma_mask_bit(w.children@, i);
}

/// A level that carries the fixed padding encoding: the selected slot is 1
/// and slot 0 encodes the single-child mask.
pub open spec fn is_padding_level(l: PoseidonLevel) -> bool {
    &&& l.offset == 1
    &&& l.words()[0] == scalar_words(1)
}

/// Padding count: when the walk yields fewer real levels than the depth,
/// exactly the levels above the real ones carry the padding encoding — all
/// of `produced..DEPTH` do, and, as long as no consumed real level itself
/// has a lone child at position 0, none of `0..produced` does.
pub proof fn lemma_padding_count<const DEPTH: usize>(b: PoseidonBranch<DEPTH>, walk: Seq<WalkLevel>)
    requires
        b.describes(walk),
        forall|i: int| 0 <= i < walk.len() ==> (#[trigger] walk[i]).wf(),
        forall|i: int|
            walk.len() - produced_of(walk, DEPTH as nat) <= i < walk.len() ==> !((
            #[trigger] walk[i]).offset == 0 && mask_of(walk[i].children@) == 1),
    ensures
        forall|k: int|
            produced_of(walk, DEPTH as nat) <= k < DEPTH ==> is_padding_level(
                #[trigger] b.levels@[k],
            ),
        forall|k: int|
            0 <= k < produced_of(walk, DEPTH as nat) ==> !is_padding_level(#[trigger] b.levels@[k]),
{
    let produced = produced_of(walk, DEPTH as nat);
    assert forall|k: int|
        produced <= k < DEPTH implies is_padding_level(#[trigger] b.levels@[k]) by {
        assert(b.levels@[k].words() == opening_level_words(walk, DEPTH as nat, k as nat));
        assert(b.levels@[k].offset == opening_offset(walk, DEPTH as nat, k as nat));
    }
    assert forall|k: int| 0 <= k < produced implies !is_padding_level(#[trigger] b.levels@[k]) by {
        let w = walk[walk.len() - 1 - k];
        assert(b.levels@[k].words() == real_level_words(w));
        assert(b.levels@[k].offset == w.offset + 1);
        assert(b.levels@[k].words()[0] == scalar_words(mask_of(w.children@) as u64));
        if is_padding_level(b.levels@[k]) {
            assert(w.offset == 0);
            assert(scalar_words(mask_of(w.children@) as u64) == scalar_words(1));
            assert(scalar_words(mask_of(w.children@) as u64)[0] == mask_of(w.children@) as u64);
            lemma_mask_of_bound(w.children@);
            lemma2_to64();
            assert(mask_of(w.children@) == 1);
        }
    }
}

/// No padding when exact: when the walk supplies at least `DEPTH` real
/// levels, every opening level is the image of a real visited level — no
/// level carries a permutation-derived slot — and the topmost level keeps
/// the topmost consumed visited level's offset, shifted past the mask slot.
pub proof fn lemma_no_padding_when_exact<const DEPTH: usize>(
    b: PoseidonBranch<DEPTH>,
    walk: Seq<WalkLevel>,
)
    requires
        b.describes(walk),
        walk.len() >= DEPTH,
        DEPTH >= 1,
    ensures
        forall|k: int|
            0 <= k < DEPTH ==> (#[trigger] b.levels@[k]).words() == real_level_words(
                walk[walk.len() - 1 - k],
            ),
        b.levels@[DEPTH - 1].offset == walk[walk.len() - DEPTH].offset + 1,
{
    assert(produced_of(walk, DEPTH as nat) == DEPTH);
    assert(b.levels@[DEPTH - 1].offset == opening_offset(walk, DEPTH as nat, (DEPTH - 1) as nat));
}

/// The occupied content of a visited level: its offset and, per child
/// position, the commitment of the child there, if any. The kind of a
/// present child (leaf or internal node) is deliberately not part of it.
pub open spec fn content_of(w: WalkLevel) -> (int, Seq<Option<Seq<u64>>>) {
    (
        w.offset as int,
        w.children@.map(
            |i: int, c: Child|
                if c.is_occupied() {
                    Some(c.commitment_words())
                } else {
                    None
                },
        ),
    )
}

/// Two visited levels with the same occupied content build the same slots.
proof fn lemma_real_level_words_congruent(a: WalkLevel, b: WalkLevel)
    requires
        a.wf(),
        content_of(a) == content_of(b),
    ensures
        real_level_words(a) == real_level_words(b),
{
    let ca = content_of(a).1;
    let cb = content_of(b).1;
    assert(a.children@.len() == ca.len() && b.children@.len() == cb.len());
    assert(a.children@.len() == b.children@.len());
    assert forall|i: int|
        0 <= i < a.children@.len() implies (#[trigger] a.children@[i]).is_occupied()
            == b.children@[i].is_occupied() by {
        assert(ca[i] == cb[i]);
    }
    assert forall|i: int|
        0 <= i < a.children@.len() implies (#[trigger] a.children@[i]).commitment_words()
            == b.children@[i].commitment_words() by {
        assert(ca[i] == cb[i]);
        if !a.children@[i].is_occupied() {
            assert(a.children@[i] is Empty && b.children@[i] is Empty);
        }
    }
    lemma_mask_of_congruent(a.children@, b.children@);
    assert(real_level_words(a) =~= real_level_words(b));
}

/// Every level of the opening depends only on the occupied content of the
/// walk, proved level by level up the padding chain.
proof fn lemma_opening_words_congruent(wa: Seq<WalkLevel>, wb: Seq<WalkLevel>, depth: nat, k: nat)
    requires
        wa.len() == wb.len(),
        forall|i: int| 0 <= i < wa.len() ==> (#[trigger] wa[i]).wf(),
        forall|i: int| 0 <= i < wa.len() ==> content_of(#[trigger] wa[i]) == content_of(wb[i]),
    ensures
        opening_level_words(wa, depth, k) == opening_level_words(wb, depth, k),
    decreases k,
{
    let produced = produced_of(wa, depth);
    assert(produced == produced_of(wb, depth));
    if k < produced {
        lemma_real_level_words_congruent(wa[wa.len() - 1 - k], wb[wb.len() - 1 - k]);
    } else if k != 0 {
        lemma_opening_words_congruent(wa, wb, depth, (k - 1) as nat);
    }
}

/// Root depends only on occupied content: two walks of the same length that
/// agree on every level's offset and on the commitment at every occupied
/// child position — whatever the kind of the child that supplied it — yield
/// openings with the same root, and indeed the same levels throughout.
pub proof fn lemma_root_depends_only_on_content<const DEPTH: usize>(
    a: PoseidonBranch<DEPTH>,
    b: PoseidonBranch<DEPTH>,
    wa: Seq<WalkLevel>,
    wb: Seq<WalkLevel>,
)
    requires
        a.describes(wa),
        b.describes(wb),
        wa.len() == wb.len(),
        forall|i: int| 0 <= i < wa.len() ==> (#[trigger] wa[i]).wf(),
        forall|i: int| 0 <= i < wa.len() ==> content_of(#[trigger] wa[i]) == content_of(wb[i]),
        DEPTH >= 1,
    ensures
        a.root_spec() == b.root_spec(),
{
    assert forall|k: int|
        0 <= k < DEPTH implies (#[trigger] a.levels@[k]).words() == b.levels@[k].words()
            && a.levels@[k].offset == b.levels@[k].offset by {
        lemma_opening_words_congruent(wa, wb, DEPTH as nat, k as nat);
        assert(opening_offset(wa, DEPTH as nat, k as nat) == opening_offset(
            wb,
            DEPTH as nat,
            k as nat,
        ));
    }
    let d = DEPTH as int - 1;
    let la = a.levels@[d];
    let lb = b.levels@[d];
    assert(la.words() == opening_level_words(wa, DEPTH as nat, d as nat));
    assert(la.words().len() == WIDTH);
    assert(la.level@.len() == WIDTH && lb.level@.len() == WIDTH);
    assert(la.offset == opening_offset(wa, DEPTH as nat, d as nat));
    if d < produced_of(wa, DEPTH as nat) {
        assert(wa[wa.len() - 1 - d].wf());
    }
    assert(0 <= la.offset < WIDTH && la.offset == lb.offset);
    assert(la.level@[la.offset as int]@ == la.words()[la.offset as int]);
    assert(lb.level@[lb.offset as int]@ == lb.words()[lb.offset as int]);
    lemma_scalar_view_injective(la.level@[la.offset as int], lb.level@[lb.offset as int]);
}

} // verus!
