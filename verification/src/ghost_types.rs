//! Names for the types of the contracts, for implementations of the traits outside Verus. There
//! the ghost functions of the traits are never run.
use vstd::prelude::*;

verus! {

/// A natural number of any size.
pub type Natural = nat;

/// An integer of any size.
pub type Integer = int;

/// A sequence of any length.
pub type Sequence<T> = Seq<T>;

} // verus!
