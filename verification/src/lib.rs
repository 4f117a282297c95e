//! Core state machine of a sliding-tile puzzle: an N x N grid holding a
//! permutation of the identifiers `0 .. N*N`, where `0` marks the single
//! empty cell and a tile orthogonally adjacent to it may slide into it.

pub mod assets;
pub mod board;
pub mod laws;
pub mod perm;
