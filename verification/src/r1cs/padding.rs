//! Padding of shapes to powers of two.
use super::shape::R1CSShape;
use super::sparse::{entries_within, lemma_same_rows, SparseMatrix};
use crate::field::{filled, Scalar};
use crate::parallel::par_for_each_mut;
use crate::powers::{checked_next_power_of_two, law_next_power_of_two, next_power_of_two};
use crate::traits::Engine;
use vstd::prelude::*;

verus! {

/// A column after `by` columns have been put in before column `at`.
pub open spec fn shifted_column(c: nat, at: nat, by: nat) -> nat {
    if c >= at {
        c + by
    } else {
        c
    }
}

/// A row after `by` columns have been put in before column `at`.
pub open spec fn shifted_row(row: Seq<(nat, nat)>, at: nat, by: nat) -> Seq<(nat, nat)> {
    Seq::new(row.len(), |k: int| (shifted_column(row[k].0, at, by), row[k].1))
}

/// The rows of a matrix after `by` columns have been put in before column `at`, and `extra` rows
/// without entries below the last one.
pub open spec fn padded_rows(rows: Seq<Seq<(nat, nat)>>, at: nat, by: nat, extra: nat) -> Seq<
    Seq<(nat, nat)>,
> {
    Seq::new(
        rows.len() + extra,
        |i: int|
            if i < rows.len() {
                shifted_row(rows[i], at, by)
            } else {
                Seq::empty()
            },
    )
}

/// The larger of two numbers.
pub(crate) fn larger(a: usize, b: usize) -> (r: usize)
    ensures
        r == if a >= b {
            a
        } else {
            b
        },
{
    if a >= b {
        a
    } else {
        b
    }
}

impl<S: Scalar> SparseMatrix<S> {
    /// The columns stay within the range of the machine when `by` columns are put in before
    /// column `at`.
    pub open spec fn can_shift(&self, at: nat, by: nat) -> bool {
        &&& self.cols + by <= usize::MAX
        &&& forall|k: int|
            0 <= k < self.indices@.len() ==> shifted_column(
                #[trigger] self.indices@[k] as nat,
                at,
                by,
            ) <= usize::MAX
    }

    /// Puts in `by` columns before column `at`, and `extra` rows without entries below the last
    /// one.
    fn apply_pad(self, at: usize, by: usize, extra: usize) -> (r: SparseMatrix<S>)
        requires
            self.wf(),
            self.can_shift(at as nat, by as nat),
        ensures
            r.wf(),
            r.cols == self.cols + by,
            r.rows() == padded_rows(self.rows(), at as nat, by as nat, extra as nat),
    {
        let mut M = self;
        par_for_each_mut(
            &mut M.indices,
            |c: &mut usize|
                requires
                    shifted_column(*old(c) as nat, at as nat, by as nat) <= usize::MAX,
                ensures
                    *final(c) == shifted_column(*old(c) as nat, at as nat, by as nat)
                {
                    if *c >= at {
                        *c = *c + by;
                    }
                },
        );
        M.cols = M.cols + by;
        let nnz = M.indptr[M.indptr.len() - 1];
        let mut ex = filled(nnz, extra);
        M.indptr.append(&mut ex);
        proof {
            let n = self.num_rows() as int;
            let target = padded_rows(self.rows(), at as nat, by as nat, extra as nat);
            assert forall|k: int| 0 <= k < M.indices@.len() implies #[trigger] M.indices@[k]
                == shifted_column(self.indices@[k] as nat, at as nat, by as nat) by {}
            assert forall|i: int| 0 <= i < target.len() implies M.rows()[i]
                == #[trigger] target[i] by {
                if i < n {
                    assert(self.indptr@[i + 1] <= self.indptr@.last());
                    assert(self.rows()[i] == self.row(i));
                    assert(M.row(i) =~= shifted_row(self.row(i), at as nat, by as nat));
                } else {
                    assert(M.indptr@[i] == nnz && M.indptr@[i + 1] == nnz);
                    assert(M.row(i) =~= Seq::<(nat, nat)>::empty());
                }
            }
            assert(M.rows() =~= target);
        }
        M
    }
}

impl<E: Engine> R1CSShape<E> {
    /// The number of constraints and of variables after padding: the first power of two that is at
    /// least as large as both and larger than the number of inputs and outputs.
    pub open spec fn padded_size(&self) -> nat {
        let a = if self.num_vars >= self.num_cons {
            self.num_vars
        } else {
            self.num_cons
        };
        next_power_of_two(
            if a >= self.num_io + 1 {
                a as nat
            } else {
                (self.num_io + 1) as nat
            },
        )
    }

    /// A shape is what padding makes of another one. A regular shape stays as it is. Otherwise the
    /// numbers of constraints and of variables become the padded size; where that changes the
    /// number of variables, the new variables come behind the old ones, and the matrices get rows
    /// for the new constraints.
    pub open spec fn padded_to(&self, r: Self) -> bool {
        let m = self.padded_size();
        let by = (m - self.num_vars) as nat;
        let extra = (m - self.num_cons) as nat;
        if self.regular() {
            &&& r.same_constraints(self)
            &&& r.kept_digest() == self.kept_digest()
        } else {
            &&& r.num_cons == m
            &&& r.num_vars == m
            &&& r.num_io == self.num_io
            &&& r.kept_digest() is None
            &&& if self.num_vars == m {
                &&& r.A.rows() == self.A.rows()
                &&& r.B.rows() == self.B.rows()
                &&& r.C.rows() == self.C.rows()
                &&& r.A.cols == self.A.cols
                &&& r.B.cols == self.B.cols
                &&& r.C.cols == self.C.cols
            } else {
                &&& r.A.rows() == padded_rows(self.A.rows(), self.num_vars as nat, by, extra)
                &&& r.B.rows() == padded_rows(self.B.rows(), self.num_vars as nat, by, extra)
                &&& r.C.rows() == padded_rows(self.C.rows(), self.num_vars as nat, by, extra)
                &&& r.A.cols == self.A.cols + by
                &&& r.B.cols == self.B.cols + by
                &&& r.C.cols == self.C.cols + by
            }
        }
    }

    /// The sizes and the columns of the padded shape are within the range of the machine.
    pub open spec fn can_pad(&self) -> bool {
        let m = self.padded_size();
        let by = (m - self.num_vars) as nat;
        self.regular() || {
            &&& m <= usize::MAX
            &&& self.num_vars != m ==> {
                &&& self.A.can_shift(self.num_vars as nat, by)
                &&& self.B.can_shift(self.num_vars as nat, by)
                &&& self.C.can_shift(self.num_vars as nat, by)
            }
        }
    }

    /// Pads the shape so that it is regular, and renumbers the variables to make room for the new
    /// ones.
    pub fn pad(&self) -> (r: Self)
        requires
            self.wf(),
            self.can_pad(),
        ensures
            r.wf(),
            r.regular(),
            self.padded_to(r),
    {
        // check if the shape is already as required
        if self.is_regular_shape() {
            let r = self.clone();
            proof {
                lemma_same_rows(r.A, self.A);
                lemma_same_rows(r.B, self.B);
                lemma_same_rows(r.C, self.C);
            }
            return r;
        }

        // equalize the number of variables and constraints, and exceed the public IO
        proof {
            law_next_power_of_two((self.num_io + 1) as nat);
            if self.num_vars >= self.num_cons {
                law_next_power_of_two(self.num_vars as nat);
            } else {
                law_next_power_of_two(self.num_cons as nat);
            }
        }
        let largest = larger(larger(self.num_vars, self.num_cons), self.num_io + 1);
        proof {
            law_next_power_of_two(largest as nat);
        }
        let m = checked_next_power_of_two(largest).unwrap();

        // check if the number of variables is as expected, then the number of constraints is
        // simply set to the next power of two
        if self.num_vars == m {
            let r = R1CSShape::undigested(
                m,
                m,
                self.num_io,
                self.A.clone(),
                self.B.clone(),
                self.C.clone(),
            );
            proof {
                lemma_same_rows(r.A, self.A);
                lemma_same_rows(r.B, self.B);
                lemma_same_rows(r.C, self.C);
                let cons = self.num_cons as nat;
                lemma_entries_within_taller(self.A.rows(), cons, m as nat, self.width());
                lemma_entries_within_taller(self.B.rows(), cons, m as nat, self.width());
                lemma_entries_within_taller(self.C.rows(), cons, m as nat, self.width());
            }
            return r;
        }

        // otherwise, pad the number of variables and renumber variable accesses
        let by = m - self.num_vars;
        let extra = m - self.num_cons;
        let A = self.A.clone();
        let B = self.B.clone();
        let C = self.C.clone();
        proof {
            lemma_same_rows(A, self.A);
            lemma_same_rows(B, self.B);
            lemma_same_rows(C, self.C);
            let (at, cons) = (self.num_vars as nat, self.num_cons as nat);
            let (b, e) = (by as nat, extra as nat);
            lemma_padded_entries_within(A.rows(), at, b, e, cons, self.width());
            lemma_padded_entries_within(B.rows(), at, b, e, cons, self.width());
            lemma_padded_entries_within(C.rows(), at, b, e, cons, self.width());
        }
        R1CSShape::undigested(
            m,
            m,
            self.num_io,
            A.apply_pad(self.num_vars, by, extra),
            B.apply_pad(self.num_vars, by, extra),
            C.apply_pad(self.num_vars, by, extra),
        )
    }
}

/// Entries that lie within some rows lie within more rows.
proof fn lemma_entries_within_taller(
    rows: Seq<Seq<(nat, nat)>>,
    height: nat,
    taller: nat,
    width: nat,
)
    requires
        entries_within(rows, height, width),
        height <= taller,
    ensures
        entries_within(rows, taller, width),
{
}

/// Padding keeps the entries within the padded sizes.
proof fn lemma_padded_entries_within(
    rows: Seq<Seq<(nat, nat)>>,
    at: nat,
    by: nat,
    extra: nat,
    height: nat,
    width: nat,
)
    requires
        entries_within(rows, height, width),
        at < width,
    ensures
        entries_within(padded_rows(rows, at, by, extra), height + extra, width + by),
{
    let p = padded_rows(rows, at, by, extra);
    assert forall|i: int, k: int| 0 <= i < p.len() && 0 <= k < p[i].len() implies (
    #[trigger] p[i][k]).0 < width + by && i < height + extra by {
        if i < rows.len() {
            assert(p[i] == shifted_row(rows[i], at, by));
            assert(rows[i][k].0 < width);
        }
    }
}

} // verus!
