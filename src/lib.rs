//! An AVL tree of unique `i32` values: a binary search tree that keeps, at
//! every node, the heights of its two subtrees within one of each other.
//!
//! - `tree`: the node type, its mathematical model (values, heights,
//!   ordering, exact metadata, balance) and the metadata fix-up.
//! - `rotation`: single rotations and the balance repair that picks them.
//! - `insertion`: insertion, its model, and the proof that it keeps every
//!   invariant.
//! - `proofs`: lemmas on rotations and on repairing a node two levels out
//!   of balance.
//! - `laws`: properties of insertion and of balanced trees as a whole.

pub mod tree;
pub mod rotation;
pub mod proofs;
pub mod insertion;
pub mod laws;
