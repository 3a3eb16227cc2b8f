//! Products of matrices are linear in the vector.
use super::sparse::{assignment, entries_within, product, row_sum};
use crate::field::{
    combine, congruent, lemma_congruent_add, lemma_congruent_mul, lemma_residue_congruent, residue,
    values, zeros, Scalar,
};
use vstd::arithmetic::div_mod::lemma_small_mod;
use vstd::prelude::*;

verus! {

/// The sum over a row is linear in the vector, up to multiples of the modulus.
proof fn lemma_row_sum_linear(m: nat, row: Seq<(nat, nat)>, z1: Seq<nat>, r: nat, z2: Seq<nat>)
    requires
        m > 0,
        z1.len() == z2.len(),
        forall|k: int| 0 <= k < row.len() ==> (#[trigger] row[k]).0 < z1.len(),
    ensures
        congruent(
            m,
            row_sum(row, combine(m, z1, r, z2)) as int,
            (row_sum(row, z1) + r * row_sum(row, z2)) as int,
        ),
    decreases row.len(),
{
    if row.len() > 0 {
        let rest = row.drop_last();
        let (c, v) = row.last();
        assert(row[row.len() - 1].0 < z1.len());
        assert forall|k: int| 0 <= k < rest.len() implies (#[trigger] rest[k]).0 < z1.len() by {
            assert(rest[k] == row[k]);
        }
        lemma_row_sum_linear(m, rest, z1, r, z2);
        let (x1, x2) = (z1[c as int], z2[c as int]);
        let (s1, s2) = (row_sum(rest, z1), row_sum(rest, z2));
        let x = combine(m, z1, r, z2)[c as int];
        assert(x == residue(m, (x1 + r * x2) as int));
        lemma_residue_congruent(m, (x1 + r * x2) as int);
        lemma_congruent_mul(m, v as int, v as int, x as int, (x1 + r * x2) as int);
        lemma_congruent_add(
            m,
            row_sum(rest, combine(m, z1, r, z2)) as int,
            (s1 + r * s2) as int,
            (v * x) as int,
            (v * (x1 + r * x2)) as int,
        );
        assert((s1 + r * s2) + v * (x1 + r * x2) == (s1 + v * x1) + r * (s2 + v * x2))
            by (nonlinear_arith);
    } else {
        assert(r * 0 == 0) by (nonlinear_arith);
    }
}

/// The product of a matrix with `z1 + r * z2` is the product with `z1` plus `r` times the product
/// with `z2`.
pub proof fn law_product_linear(
    m: nat,
    rows: Seq<Seq<(nat, nat)>>,
    height: nat,
    z1: Seq<nat>,
    r: nat,
    z2: Seq<nat>,
)
    requires
        m > 0,
        z1.len() == z2.len(),
        entries_within(rows, height, z1.len()),
    ensures
        product(m, rows, combine(m, z1, r, z2)) == combine(
            m,
            product(m, rows, z1),
            r,
            product(m, rows, z2),
        ),
{
    let left = product(m, rows, combine(m, z1, r, z2));
    let right = combine(m, product(m, rows, z1), r, product(m, rows, z2));
    assert forall|i: int| 0 <= i < rows.len() implies left[i] == #[trigger] right[i] by {
        let (s1, s2) = (row_sum(rows[i], z1) as int, row_sum(rows[i], z2) as int);
        assert forall|k: int| 0 <= k < rows[i].len() implies (#[trigger] rows[i][k]).0
            < z1.len() by {}
        lemma_row_sum_linear(m, rows[i], z1, r, z2);
        lemma_residue_congruent(m, s1);
        lemma_residue_congruent(m, s2);
        lemma_congruent_mul(m, r as int, r as int, residue(m, s2) as int, s2);
        lemma_congruent_add(m, residue(m, s1) as int, s1, (r * residue(m, s2)) as int, r * s2);
    }
    assert(left =~= right);
}

/// The dense vectors of two assignments combine part by part.
pub(crate) proof fn lemma_combine_assignments(
    m: nat,
    W1: Seq<nat>,
    u1: nat,
    X1: Seq<nat>,
    r: nat,
    W2: Seq<nat>,
    u2: nat,
    X2: Seq<nat>,
)
    requires
        m > 0,
        W1.len() == W2.len(),
        X1.len() == X2.len(),
    ensures
        combine(m, assignment(W1, u1, X1), r, assignment(W2, u2, X2)) == assignment(
            combine(m, W1, r, W2),
            residue(m, (u1 + r * u2) as int),
            combine(m, X1, r, X2),
        ),
{
    assert(combine(m, assignment(W1, u1, X1), r, assignment(W2, u2, X2)) =~= assignment(
        combine(m, W1, r, W2),
        residue(m, (u1 + r * u2) as int),
        combine(m, X1, r, X2),
    ));
}

/// A witness, a scalar and public inputs and outputs, written one after the other, are the dense
/// vector that they make up, so that the product with either is the same.
pub proof fn law_assignment_is_concatenation<S: Scalar>(W: Seq<S>, u: S, X: Seq<S>)
    ensures
        values(W + seq![u] + X) == assignment(values(W), u.value(), values(X)),
{
    assert(values(W + seq![u] + X) =~= assignment(values(W), u.value(), values(X)));
}

/// The sum over a row is 0 on a vector of zeros.
proof fn lemma_row_sum_zeros(row: Seq<(nat, nat)>, n: nat)
    requires
        forall|k: int| 0 <= k < row.len() ==> (#[trigger] row[k]).0 < n,
    ensures
        row_sum(row, zeros(n)) == 0,
    decreases row.len(),
{
    if row.len() > 0 {
        let rest = row.drop_last();
        assert(row[row.len() - 1].0 < n);
        assert forall|k: int| 0 <= k < rest.len() implies (#[trigger] rest[k]).0 < n by {
            assert(rest[k] == row[k]);
        }
        lemma_row_sum_zeros(rest, n);
        let v = row.last().1;
        assert(v * 0 == 0) by (nonlinear_arith);
    }
}

/// The product of a matrix with a vector of zeros holds zeros throughout.
pub proof fn law_product_of_zeros(m: nat, rows: Seq<Seq<(nat, nat)>>, height: nat, n: nat)
    requires
        m > 0,
        entries_within(rows, height, n),
    ensures
        product(m, rows, zeros(n)) == zeros(rows.len()),
{
    let left = product(m, rows, zeros(n));
    assert forall|i: int| 0 <= i < rows.len() implies #[trigger] left[i] == 0 by {
        assert forall|k: int| 0 <= k < rows[i].len() implies (#[trigger] rows[i][k]).0 < n by {}
        lemma_row_sum_zeros(rows[i], n);
        lemma_small_mod(0, m);
    }
    assert(left =~= zeros(rows.len()));
}

} // verus!
