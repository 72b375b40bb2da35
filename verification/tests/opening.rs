#![allow(deprecated)]

use poseidon_opening::{Child, PoseidonBranch, PoseidonLevel, Scalar, WalkLevel, WIDTH};

fn scalar(v: u64) -> Scalar {
    Scalar { w0: v, w1: 0, w2: 0, w3: 0 }
}

fn to_bls(s: &Scalar) -> dusk_bls12_381::BlsScalar {
    dusk_bls12_381::BlsScalar::from_raw([s.w0, s.w1, s.w2, s.w3])
}

fn from_bls(b: &dusk_bls12_381::BlsScalar) -> Scalar {
    let x = b.to_bytes();
    let w = |k: usize| u64::from_le_bytes(x[8 * k..8 * k + 8].try_into().unwrap());
    Scalar { w0: w(0), w1: w(1), w2: w(2), w3: w(3) }
}

/// The Hades permutation computed independently of the library.
fn hades(state: &[Scalar]) -> Vec<Scalar> {
    let mut buf = [dusk_bls12_381::BlsScalar::zero(); WIDTH];
    for i in 0..WIDTH {
        buf[i] = to_bls(&state[i]);
    }
    dusk_hades::Strategy::perm(&mut dusk_hades::ScalarStrategy::new(), &mut buf);
    buf.iter().map(from_bls).collect()
}

fn level(offset: usize, children: Vec<Child>) -> WalkLevel {
    assert_eq!(children.len(), WIDTH - 1);
    WalkLevel { offset, children }
}

#[test]
fn scalar_encodings() {
    assert_eq!(Scalar::zero(), scalar(0));
    assert_eq!(Scalar::one(), scalar(1));
    assert_eq!(Scalar::from_u64(42), scalar(42));
}

#[test]
fn scenario_single_level_single_child() {
    // Depth 1, one real level, one occupied child at offset 0.
    let walk = vec![level(0, vec![Child::Leaf(scalar(7)), Child::Empty, Child::Empty, Child::Empty])];
    let b: PoseidonBranch<1> = PoseidonBranch::from_walk(&walk);
    assert_eq!(b.levels.len(), 1);
    let l = &b.levels[0];
    assert_eq!(l.offset(), 1);
    assert_eq!(l.level[0], scalar(1));
    assert_eq!(l.level[1], scalar(7));
    assert_eq!(l.level[2], scalar(0));
    assert_eq!(l.level[3], scalar(0));
    assert_eq!(l.level[4], scalar(0));
    assert_eq!(b.root(), scalar(7));
    assert_eq!(b.selected_value(), scalar(7));
}

#[test]
fn mask_reflects_occupancy() {
    // Children at positions 1 and 3 occupied: mask = 0b1010 = 10.
    let walk = vec![level(
        1,
        vec![Child::Empty, Child::Leaf(scalar(5)), Child::Empty, Child::Internal(scalar(9))],
    )];
    let b: PoseidonBranch<1> = PoseidonBranch::from_walk(&walk);
    let l = &b.levels[0];
    assert_eq!(l.level[0], scalar(10));
    assert_eq!(l.level[1], scalar(0));
    assert_eq!(l.level[2], scalar(5));
    assert_eq!(l.level[3], scalar(0));
    assert_eq!(l.level[4], scalar(9));
    assert_eq!(l.offset(), 2);
    assert_eq!(b.root(), scalar(5));
}

#[test]
fn construction_is_deterministic() {
    let walk = vec![
        level(2, vec![Child::Internal(scalar(11)), Child::Empty, Child::Internal(scalar(13)), Child::Empty]),
        level(0, vec![Child::Leaf(scalar(3)), Child::Leaf(scalar(4)), Child::Empty, Child::Empty]),
    ];
    let a: PoseidonBranch<4> = PoseidonBranch::from_walk(&walk);
    let b: PoseidonBranch<4> = PoseidonBranch::from_walk(&walk);
    assert_eq!(a, b);
}

#[test]
fn scenario_padded_to_depth_four() {
    // Real tree height 2, depth 4: levels 0-1 real, levels 2-3 padding.
    let walk = vec![
        level(1, vec![Child::Internal(scalar(21)), Child::Internal(scalar(22)), Child::Empty, Child::Empty]),
        level(0, vec![Child::Leaf(scalar(3)), Child::Leaf(scalar(4)), Child::Leaf(scalar(5)), Child::Empty]),
    ];
    let b: PoseidonBranch<4> = PoseidonBranch::from_walk(&walk);
    assert_eq!(b.levels.len(), 4);

    // Level 0 is the leaf end of the walk (last entry), level 1 the root end.
    assert_eq!(b.levels[0].offset(), 1);
    assert_eq!(b.levels[0].level[0], scalar(0b111));
    assert_eq!(b.levels[0].level[1], scalar(3));
    assert_eq!(b.levels[1].offset(), 2);
    assert_eq!(b.levels[1].level[0], scalar(0b11));
    assert_eq!(b.levels[1].level[2], scalar(22));

    // Levels 2 and 3 carry the fixed padding encoding.
    for k in [2, 3] {
        assert_eq!(b.levels[k].offset(), 1);
        assert_eq!(b.levels[k].level[0], scalar(1));
        assert_eq!(b.levels[k].level[2], scalar(0));
        assert_eq!(b.levels[k].level[3], scalar(0));
        assert_eq!(b.levels[k].level[4], scalar(0));
    }

    // Each padding slot 1 is the second word of the permutation of the full
    // slot array of the level below it.
    let perm_of_l1 = hades(&b.levels[1].level);
    assert_eq!(b.levels[2].level[1], perm_of_l1[1]);
    let perm_of_l2 = hades(&b.levels[2].level);
    assert_eq!(b.levels[3].level[1], perm_of_l2[1]);

    // The permutation genuinely moved the state.
    assert_ne!(b.levels[2].level[1], b.levels[1].level[1]);
    assert_ne!(b.levels[3].level[1], b.levels[2].level[1]);

    assert_eq!(b.root(), b.levels[3].level[1]);
}

#[test]
fn scenario_walk_longer_than_depth() {
    // A walk of four levels against depth 2: only the two levels nearest the
    // leaf are consumed, the rest is silently discarded.
    let walk = vec![
        level(0, vec![Child::Internal(scalar(41)), Child::Empty, Child::Empty, Child::Empty]),
        level(1, vec![Child::Internal(scalar(42)), Child::Internal(scalar(43)), Child::Empty, Child::Empty]),
        level(2, vec![Child::Internal(scalar(44)), Child::Empty, Child::Internal(scalar(45)), Child::Empty]),
        level(0, vec![Child::Leaf(scalar(46)), Child::Leaf(scalar(47)), Child::Empty, Child::Empty]),
    ];
    let b: PoseidonBranch<2> = PoseidonBranch::from_walk(&walk);
    assert_eq!(b.levels.len(), 2);
    // Level 0 from walk[3], level 1 from walk[2].
    assert_eq!(b.levels[0].offset(), 1);
    assert_eq!(b.levels[0].level[0], scalar(0b11));
    assert_eq!(b.levels[0].level[1], scalar(46));
    assert_eq!(b.levels[0].level[2], scalar(47));
    assert_eq!(b.levels[1].offset(), 3);
    assert_eq!(b.levels[1].level[0], scalar(0b101));
    assert_eq!(b.levels[1].level[1], scalar(44));
    assert_eq!(b.levels[1].level[3], scalar(45));
    assert_eq!(b.root(), scalar(45));
}

#[test]
fn exact_depth_needs_no_padding() {
    let walk = vec![
        level(3, vec![Child::Empty, Child::Empty, Child::Empty, Child::Internal(scalar(31))]),
        level(0, vec![Child::Leaf(scalar(30)), Child::Empty, Child::Empty, Child::Empty]),
    ];
    let b: PoseidonBranch<2> = PoseidonBranch::from_walk(&walk);
    // The final level keeps the top real level's offset, shifted by one.
    assert_eq!(b.levels[1].offset(), walk[0].offset + 1);
    // No level carries the padding encoding: level 0 has mask 1 but offset 1
    // only because its lone child sits at position 0 -- the top level does not.
    assert_eq!(b.levels[1].level[0], scalar(0b1000));
    assert_eq!(b.root(), scalar(31));
}

#[test]
fn padding_count_matches_missing_depth() {
    let walk = vec![level(
        1,
        vec![Child::Empty, Child::Leaf(scalar(8)), Child::Empty, Child::Empty],
    )];
    let b: PoseidonBranch<4> = PoseidonBranch::from_walk(&walk);
    let padding = b
        .levels
        .iter()
        .filter(|l| l.offset == 1 && l.level[0] == scalar(1))
        .count();
    assert_eq!(padding, 3);
}

#[test]
fn root_ignores_child_kind() {
    // Leaf and internal children with the same commitment yield the same
    // opening, padding included.
    let wa = vec![level(
        0,
        vec![Child::Leaf(scalar(6)), Child::Leaf(scalar(7)), Child::Empty, Child::Empty],
    )];
    let wb = vec![level(
        0,
        vec![Child::Internal(scalar(6)), Child::Internal(scalar(7)), Child::Empty, Child::Empty],
    )];
    let a: PoseidonBranch<3> = PoseidonBranch::from_walk(&wa);
    let b: PoseidonBranch<3> = PoseidonBranch::from_walk(&wb);
    assert_eq!(a.root(), b.root());
    assert_eq!(a, b);

    // A different commitment in an occupied slot changes the root.
    let wc = vec![level(
        0,
        vec![Child::Leaf(scalar(6)), Child::Leaf(scalar(99)), Child::Empty, Child::Empty],
    )];
    let c: PoseidonBranch<3> = PoseidonBranch::from_walk(&wc);
    assert_ne!(a.root(), c.root());
}

#[test]
fn empty_walk_pads_from_identity_state() {
    let walk: Vec<WalkLevel> = Vec::new();
    let b: PoseidonBranch<2> = PoseidonBranch::from_walk(&walk);
    assert_eq!(b.levels.len(), 2);
    let perm_of_zero = hades(&[scalar(0), scalar(0), scalar(0), scalar(0), scalar(0)]);
    assert_eq!(b.levels[0].offset(), 1);
    assert_eq!(b.levels[0].level[0], scalar(1));
    assert_eq!(b.levels[0].level[1], perm_of_zero[1]);
    let perm_of_l0 = hades(&b.levels[0].level);
    assert_eq!(b.levels[1].level[1], perm_of_l0[1]);
    assert_eq!(b.root(), perm_of_l0[1]);
}

#[test]
fn default_opening_is_all_identity() {
    let b: PoseidonBranch<3> = Default::default();
    assert_eq!(b.levels.len(), 3);
    for l in &b.levels {
        assert_eq!(l.offset(), 0);
        assert_eq!(l.level, vec![scalar(0); WIDTH]);
    }
    let l: PoseidonLevel = Default::default();
    assert_eq!(l.offset(), 0);
    assert_eq!(l.level, vec![scalar(0); WIDTH]);
}
