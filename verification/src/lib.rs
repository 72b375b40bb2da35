//! Fixed-depth Poseidon Merkle openings over a variable-height annotated tree.
//!
//! The crate builds an authentication path (`PoseidonBranch`) of a statically
//! known depth from a walk of a sparse Merkle tree, padding shallow trees up
//! to the required depth by repeated application of the Hades permutation.

pub mod branch;
pub mod laws;
pub mod perm;
pub mod scalar;
pub mod walk;

pub use branch::{PoseidonBranch, PoseidonLevel};
pub use scalar::Scalar;
pub use walk::{Child, WalkLevel, WIDTH};
