# nova_r1cs

Rank-1 constraint systems and a folding scheme for relaxed ones, written in Verus.

A shape holds three sparse matrices `A`, `B` and `C`. A relaxed instance and its witness satisfy it
where `Az * Bz = u * Cz + E` in every row, with `z` made up of the variables, the scalar `u` and the
public inputs and outputs, and where the instance commits to the variables and to the errors.

- `src/field.rs`, `src/bignum.rs`, `src/powers.rs`: scalars as residues, their limbs, powers of two.
- `src/pallas.rs`: the scalar field of the Pallas curve, computed by `pasta_curves`.
- `src/traits.rs`: what an engine brings along.
- `src/r1cs/`: shapes, instances and witnesses; `folding.rs`, `linearity.rs`, `padding_laws.rs` and
  `digest_laws.rs` state what holds across their functions.
- `src/parallel.rs`, `src/cell.rs`: what is taken from `rayon` and `once_cell`, with the contracts
  that are believed of it.
- `app/`: any prime field of the `ff` crate as a scalar, the types as `serde` data, and entry points
  that stop on sizes that do not fit together.
