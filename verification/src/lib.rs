//! Rank-1 constraint systems and the folding of relaxed ones.
#![allow(non_snake_case)]

pub mod bignum;
pub mod cell;
pub mod errors;
pub mod field;
pub mod field_laws;
pub mod ghost_types;
pub mod pallas;
pub mod parallel;
pub mod powers;
pub mod r1cs;
pub mod traits;
