//! Fixed-depth Merkle openings and the algorithm that assembles them.
//!
//! A `PoseidonBranch<DEPTH>` holds exactly `DEPTH` levels, index 0 nearest
//! the leaf. It is assembled from a tree walk by reversing the walk into
//! leaf-to-root order, turning each visited level into an opening level, and,
//! when the tree is shallower than `DEPTH`, padding the remaining levels by
//! repeatedly permuting the previous level's full slot array and keeping the
//! second word of the output as the single synthetic child.

use crate::perm::{hades_perm, perm_spec, state_words};
use crate::scalar::{scalar_words, Scalar};
use crate::walk::{lemma_mask_of_bound, mask_of, WalkLevel, WIDTH};
use vstd::arithmetic::power2::{lemma2_to64, lemma_pow2_unfold, pow2};
use vstd::prelude::*;

verus! {

/// One level of an opening: `WIDTH` slots and the index of the selected one.
///
/// Slot 0 always encodes the occupancy mask of the level; slots `1..WIDTH`
/// hold the child commitments, the additive identity where no child exists.
/// `offset` points at the slot whose value is this level's contribution to
/// the level above, and is never 0 (the mask slot cannot be selected).
#[derive(Clone, PartialEq, Eq, Debug)]
pub struct PoseidonLevel {
    /// The `WIDTH` slots of this level.
    pub level: Vec<Scalar>,
    /// The index of the selected slot, in `[1, WIDTH)` for assembled levels.
    pub offset: usize,
}

impl PoseidonLevel {
    /// A well-formed level: full slot list, selected slot in range.
    pub open spec fn wf(self) -> bool {
        &&& self.level@.len() == WIDTH
        &&& self.offset < WIDTH
    }

    /// The word sequences of this level's slots.
    pub open spec fn words(self) -> Seq<Seq<u64>> {
        state_words(self.level@)
    }

    /// The value at the selected slot.
    pub open spec fn selected_spec(self) -> Scalar {
        self.level@[self.offset as int]
    }

    /// The offset of the selected slot for the path this level belongs to.
    pub fn offset(&self) -> (r: usize)
        ensures
            r == self.offset,
    {
        self.offset
    }

    /// The value at the selected slot: this level's contribution to the
    /// level above it.
    pub fn selected_value(&self) -> (r: Scalar)
        requires
            self.wf(),
        ensures
            r == self.selected_spec(),
    {
        self.level[self.offset]
    }
}

impl Default for PoseidonLevel {
    /// An all-identity level with the selected slot at 0.
    fn default() -> (r: Self)
        ensures
            r.offset == 0,
            r.level@.len() == WIDTH,
            r.words() == zero_state_words(),
    {
        let r = PoseidonLevel { level: zero_slots(), offset: 0 };
        proof {
            assert(r.words() =~= zero_state_words());
        }
        r
    }
}

/// The word sequences of the slots of a level built from visited level `w`:
/// the mask in slot 0, then each child's commitment in the child's slot.
pub open spec fn real_level_words(w: WalkLevel) -> Seq<Seq<u64>> {
    Seq::new(
        WIDTH as nat,
        |j: int|
            if j == 0 {
                scalar_words(mask_of(w.children@) as u64)
            } else {
                w.children@[j - 1].commitment_words()
            },
    )
}

/// The all-identity permutation state.
pub open spec fn zero_state_words() -> Seq<Seq<u64>> {
    Seq::new(WIDTH as nat, |j: int| scalar_words(0))
}

/// The word sequences of the slots of a padding level built on top of a
/// previous level with slot words `prev`: a single-child mask in slot 0, the
/// second word of the permuted previous slots in slot 1, identity elsewhere.
pub open spec fn pad_level_words(prev: Seq<Seq<u64>>) -> Seq<Seq<u64>> {
    Seq::new(
        WIDTH as nat,
        |j: int|
            if j == 0 {
                scalar_words(1)
            } else if j == 1 {
                perm_spec(prev)[1]
            } else {
                scalar_words(0)
            },
    )
}

/// How many real levels an opening of depth `depth` consumes from `walk`.
pub open spec fn produced_of(walk: Seq<WalkLevel>, depth: nat) -> nat {
    if walk.len() < depth { walk.len() } else { depth }
}

/// The word sequences of the slots of level `k` of the opening assembled
/// from `walk` at depth `depth`: the reversed walk for the real levels, then
/// the padding chain, each padding level permuting the one below it.
pub open spec fn opening_level_words(walk: Seq<WalkLevel>, depth: nat, k: nat) -> Seq<Seq<u64>>
    decreases k,
{
    if k < produced_of(walk, depth) {
        real_level_words(walk[walk.len() - 1 - k])
    } else if k == 0 {
        pad_level_words(zero_state_words())
    } else {
        pad_level_words(opening_level_words(walk, depth, (k - 1) as nat))
    }
}

/// The selected-slot index of level `k` of the assembled opening: the
/// visited level's child offset shifted past the mask slot, or 1 for padding.
pub open spec fn opening_offset(walk: Seq<WalkLevel>, depth: nat, k: nat) -> int {
    if k < produced_of(walk, depth) {
        walk[walk.len() - 1 - k].offset + 1
    } else {
        1
    }
}

/// A full authentication path of exactly `DEPTH` levels, leaf level first.
///
/// Constructed once, in full, from a tree walk; no mutation API exists.
#[derive(Clone, PartialEq, Eq, Debug)]
pub struct PoseidonBranch<const DEPTH: usize> {
    /// The levels of the opening, index 0 nearest the leaf.
    pub levels: Vec<PoseidonLevel>,
}

/// A vector of `WIDTH` identity scalars.
fn zero_slots() -> (r: Vec<Scalar>)
    ensures
        r@.len() == WIDTH,
        forall|j: int| 0 <= j < WIDTH ==> r@[j] == (Scalar { w0: 0, w1: 0, w2: 0, w3: 0 }),
{
    let mut r: Vec<Scalar> = Vec::new();
    let mut j: usize = 0;
    while j < WIDTH
        invariant
            j <= WIDTH,
            r@.len() == j,
            forall|t: int| 0 <= t < j ==> r@[t] == (Scalar { w0: 0, w1: 0, w2: 0, w3: 0 }),
        decreases WIDTH - j,
    {
        r.push(Scalar::zero());
        j += 1;
    }
    r
}

/// A copy of a slot vector.
fn copy_slots(v: &Vec<Scalar>) -> (r: Vec<Scalar>)
    ensures
        r@ == v@,
{
    let mut r: Vec<Scalar> = Vec::new();
    let mut i: usize = 0;
    while i < v.len()
        invariant
            i <= v@.len(),
            r@ == v@.take(i as int),
        decreases v@.len() - i,
    {
        proof {
            assert(v@.take(i as int + 1) =~= v@.take(i as int).push(v@[i as int]));
        }
        r.push(v[i]);
        i += 1;
    }
    proof {
        assert(v@.take(v@.len() as int) =~= v@);
    }
    r
}

/// Builds one opening level from one visited tree level: accumulates the
/// occupancy mask, stores each present child's commitment in the child's
/// slot, encodes the mask into slot 0 and shifts the offset past it.
fn build_level(w: &WalkLevel) -> (r: PoseidonLevel)
    requires
        w.wf(),
    ensures
        r.wf(),
        r.words() == real_level_words(*w),
        r.offset == w.offset + 1,
{
    let mut mask: u64 = 0;
    let mut flag: u64 = 1;
    let mut i: usize = 0;
    proof {
        lemma2_to64();
    }
    while i < WIDTH - 1
        invariant
            w.wf(),
            i <= WIDTH - 1,
            flag == pow2(i as nat),
            mask == mask_of(w.children@.take(i as int)),
        decreases WIDTH - 1 - i,
    {
        proof {
            lemma2_to64();
            lemma_mask_of_bound(w.children@.take(i as int));
            assert(w.children@.take(i as int + 1).drop_last() =~= w.children@.take(i as int));
        }
        if w.children[i].occupied() {
            mask = mask + flag;
        }
        proof {
            lemma_pow2_unfold(i as nat + 1);
        }
        flag = flag * 2;
        i += 1;
    }
    proof {
        assert(w.children@.take((WIDTH - 1) as int) =~= w.children@);
        lemma_mask_of_bound(w.children@);
        lemma2_to64();
    }
    let mut slots: Vec<Scalar> = Vec::new();
    slots.push(Scalar::from_u64(mask));
    let mut j: usize = 0;
    while j < WIDTH - 1
        invariant
            w.wf(),
            j <= WIDTH - 1,
            slots@.len() == 1 + j,
            slots@[0]@ == scalar_words(mask),
            mask == mask_of(w.children@),
            forall|t: int| 1 <= t < 1 + j ==> (#[trigger] slots@[t])@ == w.children@[t - 1].commitment_words(),
        decreases WIDTH - 1 - j,
    {
        slots.push(w.children[j].commitment());
        j += 1;
    }
    let r = PoseidonLevel { level: slots, offset: w.offset + 1 };
    proof {
        assert(r.words() =~= real_level_words(*w));
    }
    r
}

impl<const DEPTH: usize> PoseidonBranch<DEPTH> {
    /// A well-formed opening: exactly `DEPTH` well-formed levels.
    pub open spec fn wf(self) -> bool {
        &&& self.levels@.len() == DEPTH
        &&& forall|k: int| 0 <= k < DEPTH ==> (#[trigger] self.levels@[k]).wf()
    }

    /// The opening is exactly the one that the assembly algorithm defines
    /// for `walk`: slot words and offsets of every level are pinned.
    pub open spec fn describes(self, walk: Seq<WalkLevel>) -> bool {
        &&& self.levels@.len() == DEPTH
        &&& forall|k: int|
            0 <= k < DEPTH ==> (#[trigger] self.levels@[k]).words() == opening_level_words(
                walk,
                DEPTH as nat,
                k as nat,
            )
        &&& forall|k: int|
            0 <= k < DEPTH ==> (#[trigger] self.levels@[k]).offset == opening_offset(
                walk,
                DEPTH as nat,
                k as nat,
            )
    }

    /// The commitment at the fixed target depth.
    pub open spec fn root_spec(self) -> Scalar {
        self.levels@[DEPTH as int - 1].selected_spec()
    }

    /// The leaf-level commitment that the opening authenticates.
    pub open spec fn selected_value_spec(self) -> Scalar {
        self.levels@[0].selected_spec()
    }

    /// The root for this path of an opening over a subtree: the selected
    /// value of the topmost level.
    pub fn root(&self) -> (r: Scalar)
        requires
            self.wf(),
            DEPTH >= 1,
        ensures
            r == self.root_spec(),
    {
        self.levels[DEPTH - 1].selected_value()
    }

    /// The leaf-level commitment that the opening authenticates: the
    /// selected value of the lowest level.
    pub fn selected_value(&self) -> (r: Scalar)
        requires
            self.wf(),
            DEPTH >= 1,
        ensures
            r == self.selected_value_spec(),
    {
        self.levels[0].selected_value()
    }

    /// Assembles the opening for a tree walk, root-to-leaf order, padding up
    /// to `DEPTH` with synthetic single-child levels where the walk is
    /// shorter, and silently discarding walk levels nearest the true root
    /// where it is longer.
    pub fn from_walk(walk: &Vec<WalkLevel>) -> (r: Self)
        requires
            forall|i: int| 0 <= i < walk@.len() ==> (#[trigger] walk@[i]).wf(),
        ensures
            r.wf(),
            r.describes(walk@),
    {
        let ghost gdepth: nat = DEPTH as nat;
        let n: usize = walk.len();
        let produced: usize = if n < DEPTH { n } else { DEPTH };
        assert(produced == produced_of(walk@, gdepth));
        let mut levels: Vec<PoseidonLevel> = Vec::new();
        let mut k: usize = 0;
        while k < produced
            invariant
                forall|i: int| 0 <= i < walk@.len() ==> (#[trigger] walk@[i]).wf(),
                n == walk@.len(),
                produced == produced_of(walk@, gdepth),
                gdepth == DEPTH as nat,
                k <= produced,
                levels@.len() == k,
                forall|i: int|
                    0 <= i < k ==> (#[trigger] levels@[i]).words() == opening_level_words(
                        walk@,
                        gdepth,
                        i as nat,
                    ),
                forall|i: int|
                    0 <= i < k ==> (#[trigger] levels@[i]).offset == opening_offset(
                        walk@,
                        gdepth,
                        i as nat,
                    ),
                forall|i: int| 0 <= i < k ==> (#[trigger] levels@[i]).wf(),
            decreases produced - k,
        {
            let lvl = build_level(&walk[n - 1 - k]);
            levels.push(lvl);
            k += 1;
        }
        let mut state: Vec<Scalar> = if produced == 0 {
            zero_slots()
        } else {
            copy_slots(&levels[produced - 1].level)
        };
        proof {
            if produced == 0 {
                assert(state_words(state@) =~= zero_state_words());
            }
        }
        while k < DEPTH
            invariant
                produced == produced_of(walk@, gdepth),
                gdepth == DEPTH as nat,
                produced <= k <= DEPTH,
                levels@.len() == k,
                state@.len() == WIDTH,
                state_words(state@) == if k == 0 {
                    zero_state_words()
                } else {
                    opening_level_words(walk@, gdepth, (k - 1) as nat)
                },
                forall|i: int|
                    0 <= i < k ==> (#[trigger] levels@[i]).words() == opening_level_words(
                        walk@,
                        gdepth,
                        i as nat,
                    ),
                forall|i: int|
                    0 <= i < k ==> (#[trigger] levels@[i]).offset == opening_offset(
                        walk@,
                        gdepth,
                        i as nat,
                    ),
                forall|i: int| 0 <= i < k ==> (#[trigger] levels@[i]).wf(),
            decreases DEPTH - k,
        {
            let ghost prev_words = state_words(state@);
            hades_perm(&mut state);
            let mut slots: Vec<Scalar> = Vec::new();
            slots.push(Scalar::one());
            slots.push(state[1]);
            while slots.len() < WIDTH
                invariant
                    state@.len() == WIDTH,
                    2 <= slots@.len() <= WIDTH,
                    slots@[0]@ == scalar_words(1),
                    slots@[1] == state@[1],
                    forall|t: int| 2 <= t < slots@.len() ==> (#[trigger] slots@[t])@ == scalar_words(0),
                decreases WIDTH - slots@.len(),
            {
                slots.push(Scalar::zero());
            }
            let lvl = PoseidonLevel { level: slots, offset: 1 };
            proof {
                assert(state@[1]@ == state_words(state@)[1]);
                assert(lvl.words() =~= pad_level_words(prev_words));
                assert(opening_level_words(walk@, gdepth, k as nat) == pad_level_words(prev_words));
            }
            state = copy_slots(&lvl.level);
            levels.push(lvl);
            k += 1;
        }
        let r = PoseidonBranch { levels };
        assert(r.wf());
        assert(r.describes(walk@));
        r
    }
}

impl<const DEPTH: usize> Default for PoseidonBranch<DEPTH> {
    /// An opening of `DEPTH` all-identity levels.
    fn default() -> (r: Self)
        ensures
            r.levels@.len() == DEPTH,
            forall|k: int| 0 <= k < DEPTH ==> (#[trigger] r.levels@[k]).offset == 0,
            forall|k: int| 0 <= k < DEPTH ==> (#[trigger] r.levels@[k]).words() == zero_state_words(),
    {
        let mut levels: Vec<PoseidonLevel> = Vec::new();
        let mut k: usize = 0;
        while k < DEPTH
            invariant
                k <= DEPTH,
                levels@.len() == k,
                forall|i: int| 0 <= i < k ==> (#[trigger] levels@[i]).offset == 0,
                forall|i: int| 0 <= i < k ==> (#[trigger] levels@[i]).words() == zero_state_words(),
            decreases DEPTH - k,
        {
            levels.push(PoseidonLevel::default());
            k += 1;
        }
        PoseidonBranch { levels }
    }
}

} // verus!
