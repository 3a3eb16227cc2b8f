//! The errors that the library reports.
use vstd::prelude::*;

verus! {

/// Why an operation on R1CS shapes, instances or witnesses was refused.
#[derive(Clone, Copy, Debug, PartialEq, Eq, Structural)]
pub enum NovaError {
    /// An entry of a constraint matrix lies outside the matrix that the shape describes.
    InvalidIndex,
    /// A witness does not have the length that the shape or its counterpart asks for.
    InvalidWitnessLength,
    /// The public input and output does not have the length that the shape asks for.
    InvalidInputLength,
    /// The witness does not satisfy the instance.
    UnSat,
}

} // verus!
