//! R1CS types and a folding scheme for relaxed R1CS.
pub mod construction_laws;
pub mod cross_term;
pub mod digest;
pub mod digest_laws;
pub mod fold_laws;
pub mod folding;
pub mod instance;
pub mod linearity;
pub mod oracle_laws;
pub mod padding;
pub mod padding_laws;
pub mod params;
pub mod product_laws;
pub mod satisfaction_laws;
pub mod satisfiability;
pub mod shape;
pub mod sparse;
pub mod witness;

pub use cross_term::default_T;
pub use digest::KeptDigest;
pub use instance::{R1CSInstance, RelaxedR1CSInstance};
pub use params::{CommitmentKeyHint, R1CS};
pub use shape::{R1CSResult, R1CSShape};
pub use sparse::SparseMatrix;
pub use witness::{R1CSWitness, RelaxedR1CSWitness};
