//! Sparse matrices in compressed row form, and their products with dense vectors.
use crate::field::{combine_elements, copied, residue, values, Scalar};
use vstd::arithmetic::div_mod::*;
use vstd::prelude::*;

verus! {

/// A sparse matrix, row by row.
#[derive(Debug, PartialEq, Eq)]
pub struct SparseMatrix<S: Scalar> {
    /// The entries, row by row.
    pub data: Vec<S>,
    /// The columns of the entries.
    pub indices: Vec<usize>,
    /// Where each row starts in `data` and `indices`, and where the last row ends.
    pub indptr: Vec<usize>,
    /// The number of columns.
    pub cols: usize,
}

/// The sum over the entries of a row, as pairs of a column and a coefficient, of the coefficient
/// times what the vector holds at the column.
pub open spec fn row_sum(row: Seq<(nat, nat)>, z: Seq<nat>) -> nat
    decreases row.len(),
{
    if row.len() == 0 {
        0
    } else {
        row_sum(row.drop_last(), z) + row.last().1 * z[row.last().0 as int]
    }
}

/// The product of a matrix, given by its rows, with a vector of residues.
pub open spec fn product(m: nat, rows: Seq<Seq<(nat, nat)>>, z: Seq<nat>) -> Seq<nat> {
    Seq::new(rows.len(), |i: int| residue(m, row_sum(rows[i], z) as int))
}

/// The dense vector that a witness, a scalar and a public input and output make up.
pub open spec fn assignment(W: Seq<nat>, u: nat, X: Seq<nat>) -> Seq<nat> {
    W + seq![u] + X
}

/// Every entry lies in one of the first `height` rows and in one of the first `width` columns.
pub open spec fn entries_within(rows: Seq<Seq<(nat, nat)>>, height: nat, width: nat) -> bool {
    forall|i: int, k: int|
        0 <= i < rows.len() && 0 <= k < rows[i].len() ==> (#[trigger] rows[i][k]).0 < width && i
            < height
}

/// The entries of one row among a list of entries, as pairs of a column and a coefficient in the
/// order of the list.
pub open spec fn listed_row<S: Scalar>(list: Seq<(usize, usize, S)>, row: int) -> Seq<(nat, nat)>
    decreases list.len(),
{
    if list.len() == 0 {
        Seq::empty()
    } else if list.last().0 == row {
        listed_row(list.drop_last(), row).push((list.last().1 as nat, list.last().2.value()))
    } else {
        listed_row(list.drop_last(), row)
    }
}

/// A row of columns and coefficients, with the integers that they stand for.
spec fn bucket_row<S: Scalar>(row: Seq<(usize, S)>) -> Seq<(nat, nat)> {
    Seq::new(row.len(), |k: int| (row[k].0 as nat, row[k].1.value()))
}

impl<S: Scalar> Clone for SparseMatrix<S> {
    fn clone(&self) -> (r: Self)
        ensures
            r.same(self),
    {
        SparseMatrix {
            data: copied(&self.data),
            indices: copied(&self.indices),
            indptr: copied(&self.indptr),
            cols: self.cols,
        }
    }
}

impl<S: Scalar> SparseMatrix<S> {
    /// Two matrices hold the same entries in the same places.
    pub open spec fn same(&self, other: &Self) -> bool {
        &&& self.data@ == other.data@
        &&& self.indices@ == other.indices@
        &&& self.indptr@ == other.indptr@
        &&& self.cols == other.cols
    }

    /// The rows tile the entries.
    pub open spec fn wf(&self) -> bool {
        &&& self.indptr@.len() >= 1
        &&& self.indptr@[0] == 0
        &&& self.indptr@.last() == self.indices@.len()
        &&& self.data@.len() == self.indices@.len()
        &&& forall|i: int, j: int|
            0 <= i <= j < self.indptr@.len() ==> self.indptr@[i] <= self.indptr@[j]
    }

    /// The number of rows.
    pub open spec fn num_rows(&self) -> nat {
        (self.indptr@.len() - 1) as nat
    }

    /// One row, as pairs of a column and a coefficient.
    pub open spec fn row(&self, i: int) -> Seq<(nat, nat)> {
        Seq::new(
            (self.indptr@[i + 1] - self.indptr@[i]) as nat,
            |k: int|
                (
                    self.indices@[self.indptr@[i] + k] as nat,
                    self.data@[self.indptr@[i] + k].value(),
                ),
        )
    }

    /// All rows.
    pub open spec fn rows(&self) -> Seq<Seq<(nat, nat)>> {
        Seq::new(self.num_rows(), |i: int| self.row(i))
    }

    /// Checks that the rows tile the entries.
    pub fn is_well_formed(&self) -> (r: bool)
        ensures
            r == self.wf(),
    {
        let n = self.indptr.len();
        if n == 0 || self.indptr[0] != 0 || self.indptr[n - 1] != self.indices.len()
            || self.data.len() != self.indices.len() {
            return false;
        }
        let mut i: usize = 1;
        while i < n
            invariant
                1 <= i <= n == self.indptr@.len(),
                forall|j: int, k: int| 0 <= j <= k < i ==> self.indptr@[j] <= self.indptr@[k],
            decreases n - i,
        {
            if self.indptr[i - 1] > self.indptr[i] {
                return false;
            }
            i += 1;
        }
        true
    }

    /// Builds a matrix from a list of entries, each with its row and its column. Within a row the
    /// entries keep the order of the list.
    pub fn new(matrix: &[(usize, usize, S)], rows: usize, cols: usize) -> (r: Self)
        requires
            forall|t: int| 0 <= t < matrix@.len() ==> (#[trigger] matrix@[t]).0 < rows,
        ensures
            r.wf(),
            r.cols == cols,
            r.rows() == Seq::new(rows as nat, |i: int| listed_row(matrix@, i)),
    {
        let mut buckets: Vec<Vec<(usize, S)>> = Vec::with_capacity(rows);
        while buckets.len() < rows
            invariant
                buckets@.len() <= rows,
                forall|i: int| 0 <= i < buckets@.len() ==> (#[trigger] buckets@[i])@.len() == 0,
            decreases rows - buckets@.len(),
        {
            buckets.push(Vec::new());
        }
        let mut t: usize = 0;
        proof {
            assert forall|i: int| 0 <= i < rows implies bucket_row(#[trigger] buckets@[i]@)
                == listed_row(matrix@.take(0), i) by {
                assert(bucket_row(buckets@[i]@) =~= listed_row(matrix@.take(0), i));
            }
        }
        while t < matrix.len()
            invariant
                t <= matrix@.len(),
                buckets@.len() == rows,
                forall|j: int| 0 <= j < matrix@.len() ==> (#[trigger] matrix@[j]).0 < rows,
                forall|i: int|
                    0 <= i < rows ==> bucket_row(#[trigger] buckets@[i]@) == listed_row(
                        matrix@.take(t as int),
                        i,
                    ),
            decreases matrix@.len() - t,
        {
            let (row, col, val) = matrix[t];
            let ghost before = buckets@;
            buckets[row].push((col, val));
            proof {
                let next = matrix@.take(t + 1);
                assert(next.drop_last() =~= matrix@.take(t as int));
                assert(next.last() == (row, col, val));
                assert forall|i: int| 0 <= i < rows implies bucket_row(#[trigger] buckets@[i]@)
                    == listed_row(next, i) by {
                    assert(bucket_row(before[i]@) == listed_row(matrix@.take(t as int), i));
                    if i == row {
                        assert(buckets@[i]@ == before[i]@.push((col, val)));
                        assert(bucket_row(buckets@[i]@) =~= bucket_row(before[i]@).push(
                            (col as nat, val.value()),
                        ));
                    } else {
                        assert(buckets@[i] == before[i]);
                    }
                }
            }
            t += 1;
        }
        assert(matrix@.take(t as int) =~= matrix@);
        let mut r = SparseMatrix {
            data: Vec::with_capacity(matrix.len()),
            indices: Vec::with_capacity(matrix.len()),
            indptr: Vec::with_capacity(rows),
            cols,
        };
        r.indptr.push(0);
        let mut i: usize = 0;
        while i < rows
            invariant
                i <= rows,
                buckets@.len() == rows,
                r.wf(),
                r.cols == cols,
                r.num_rows() == i,
                forall|j: int|
                    0 <= j < rows ==> bucket_row(#[trigger] buckets@[j]@) == listed_row(matrix@, j),
                forall|j: int| 0 <= j < i ==> #[trigger] r.row(j) == listed_row(matrix@, j),
            decreases rows - i,
        {
            r.push_row(&buckets[i]);
            i += 1;
        }
        assert(r.rows() =~= Seq::new(rows as nat, |i: int| listed_row(matrix@, i)));
        r
    }

    /// Adds a row below the last one.
    fn push_row(&mut self, row: &[(usize, S)])
        requires
            old(self).wf(),
        ensures
            final(self).wf(),
            final(self).cols == old(self).cols,
            final(self).num_rows() == old(self).num_rows() + 1,
            forall|i: int|
                0 <= i < old(self).num_rows() ==> #[trigger] final(self).row(i) == old(self).row(i),
            final(self).row(old(self).num_rows() as int) == bucket_row(row@),
    {
        let ghost before = *self;
        let ghost start = self.indices@.len();
        let mut k: usize = 0;
        while k < row.len()
            invariant
                k <= row@.len(),
                self.indptr == before.indptr,
                self.cols == before.cols,
                start == before.indices@.len() == before.data@.len(),
                self.indices@.len() == start + k,
                self.data@.len() == start + k,
                forall|j: int| 0 <= j < start ==> self.indices@[j] == before.indices@[j],
                forall|j: int| 0 <= j < start ==> self.data@[j] == before.data@[j],
                forall|j: int|
                    0 <= j < k ==> self.indices@[start + j] == (#[trigger] row@[j]).0
                        && self.data@[start + j] == row@[j].1,
            decreases row@.len() - k,
        {
            self.indices.push(row[k].0);
            self.data.push(row[k].1);
            k += 1;
        }
        self.indptr.push(self.indices.len());
        proof {
            let n = before.num_rows() as int;
            assert forall|i: int| 0 <= i < n implies #[trigger] self.row(i) == before.row(i) by {
                assert(before.indptr@[i + 1] <= before.indptr@.last());
                assert(self.row(i) =~= before.row(i));
            }
            assert(self.row(n) =~= bucket_row(row@));
        }
    }

    /// The sum over one row of the coefficient times what `at` gives for the column.
    fn row_times<F: Fn(usize) -> S>(&self, i: usize, at: F, Ghost(z): Ghost<Seq<nat>>) -> (r: S)
        requires
            self.wf(),
            i < self.num_rows(),
            entries_within(self.rows(), self.num_rows(), z.len()),
            forall|c: usize| c < z.len() ==> #[trigger] at.requires((c,)),
            forall|c: usize, s: S|
                c < z.len() && #[trigger] at.ensures((c,), s) ==> s.value() == z[c as int],
        ensures
            r.value() == residue(S::modulus(), row_sum(self.row(i as int), z) as int),
    {
        let len = self.indptr.len();
        assert(i + 1 < len);
        let start = self.indptr[i];
        let end = self.indptr[i + 1];
        let ghost row = self.row(i as int);
        let mut acc = S::zero();
        let mut k: usize = start;
        proof {
            S::lemma_residue(acc);
            assert(row_sum(row.take(0), z) == 0);
            lemma_small_mod(0, S::modulus());
            assert(self.indptr@[i + 1] <= self.indptr@.last());
            assert(self.rows()[i as int] == row);
        }
        while k < end
            invariant
                self.wf(),
                row == self.row(i as int),
                start == self.indptr@[i as int],
                end == self.indptr@[i + 1],
                start <= k <= end,
                end <= self.indices@.len(),
                i < self.num_rows(),
                self.rows()[i as int] == row,
                entries_within(self.rows(), self.num_rows(), z.len()),
                forall|c: usize| c < z.len() ==> #[trigger] at.requires((c,)),
                forall|c: usize, s: S|
                    c < z.len() && #[trigger] at.ensures((c,), s) ==> s.value() == z[c as int],
                acc.value() == residue(
                    S::modulus(),
                    row_sum(row.take(k - start), z) as int,
                ),
            decreases end - k,
        {
            let col = self.indices[k];
            let val = self.data[k];
            proof {
                assert(row[k - start] == (col as nat, val.value()));
                assert(self.rows()[i as int][k - start].0 < z.len());
                let next = row.take(k + 1 - start);
                assert(next.drop_last() =~= row.take(k - start));
                assert(next.last() == (col as nat, val.value()));
                S::lemma_residue(acc);
                lemma_add_mod_noop_right(
                    (val.value() * z[col as int]) as int,
                    row_sum(row.take(k - start), z) as int,
                    S::modulus() as int,
                );
            }
            acc = combine_elements(acc, val, at(col));
            k += 1;
        }
        assert(row.take(end - start) =~= row);
        acc
    }

    /// Puts the product of the matrix with the vector that `at` reads into `sink`, in place of
    /// what it held.
    fn multiply_into<F: Fn(usize) -> S>(&self, at: F, sink: &mut Vec<S>, Ghost(z): Ghost<Seq<nat>>)
        requires
            self.wf(),
            entries_within(self.rows(), self.num_rows(), z.len()),
            forall|c: usize| c < z.len() ==> #[trigger] at.requires((c,)),
            forall|c: usize, s: S|
                c < z.len() && #[trigger] at.ensures((c,), s) ==> s.value() == z[c as int],
        ensures
            values(final(sink)@) == product(S::modulus(), self.rows(), z),
    {
        let n = self.indptr.len() - 1;
        sink.clear();
        let mut i: usize = 0;
        while i < n
            invariant
                self.wf(),
                n == self.num_rows(),
                i <= n,
                sink@.len() == i,
                entries_within(self.rows(), self.num_rows(), z.len()),
                forall|c: usize| c < z.len() ==> #[trigger] at.requires((c,)),
                forall|c: usize, s: S|
                    c < z.len() && #[trigger] at.ensures((c,), s) ==> s.value() == z[c as int],
                forall|j: int|
                    0 <= j < i ==> (#[trigger] sink@[j]).value() == residue(
                        S::modulus(),
                        row_sum(self.row(j), z) as int,
                    ),
            decreases n - i,
        {
            let r = self.row_times(i, &at, Ghost(z));
            sink.push(r);
            i += 1;
        }
        proof {
            let p = product(S::modulus(), self.rows(), z);
            assert forall|j: int| 0 <= j < n implies values(sink@)[j] == #[trigger] p[j] by {
                assert(sink@[j].value() == residue(S::modulus(), row_sum(self.row(j), z) as int));
                assert(self.rows()[j] == self.row(j));
            }
            assert(values(sink@) =~= p);
        }
    }

    /// Multiplies the matrix by a dense vector.
    pub fn multiply_vec(&self, z: &[S]) -> (r: Vec<S>)
        requires
            self.wf(),
            entries_within(self.rows(), self.num_rows(), z@.len()),
        ensures
            values(r@) == product(S::modulus(), self.rows(), values(z@)),
    {
        let mut r: Vec<S> = Vec::with_capacity(self.indptr.len() - 1);
        self.multiply_into(
            |c: usize| -> (s: S)
                requires
                    c < z@.len(),
                ensures
                    s.value() == values(z@)[c as int]
                { z[c] },
            &mut r,
            Ghost(values(z@)),
        );
        r
    }

    /// Multiplies the matrix by the dense vector that `W`, `u` and `X` make up.
    pub fn multiply_witness(&self, W: &[S], u: &S, X: &[S]) -> (r: Vec<S>)
        requires
            self.wf(),
            entries_within(self.rows(), self.num_rows(), W@.len() + 1 + X@.len()),
        ensures
            values(r@) == product(
                S::modulus(),
                self.rows(),
                assignment(values(W@), u.value(), values(X@)),
            ),
    {
        let mut r: Vec<S> = Vec::with_capacity(self.indptr.len() - 1);
        self.multiply_witness_into(W, u, X, &mut r);
        r
    }

    /// Puts the product of the matrix with the dense vector that `W`, `u` and `X` make up into
    /// `sink`, in place of what it held.
    pub fn multiply_witness_into(&self, W: &[S], u: &S, X: &[S], sink: &mut Vec<S>)
        requires
            self.wf(),
            entries_within(self.rows(), self.num_rows(), W@.len() + 1 + X@.len()),
        ensures
            values(final(sink)@) == product(
                S::modulus(),
                self.rows(),
                assignment(values(W@), u.value(), values(X@)),
            ),
    {
        let ghost z = assignment(values(W@), u.value(), values(X@));
        self.multiply_into(
            |c: usize| -> (s: S)
                requires
                    c < z.len(),
                    z == assignment(values(W@), u.value(), values(X@)),
                ensures
                    s.value() == z[c as int]
                {
                    if c < W.len() {
                        W[c]
                    } else if c == W.len() {
                        *u
                    } else {
                        X[c - W.len() - 1]
                    }
                },
            sink,
            Ghost(z),
        );
    }
}

/// Matrices that hold the same entries in the same places have the same rows.
pub(crate) proof fn lemma_same_rows<S: Scalar>(a: SparseMatrix<S>, b: SparseMatrix<S>)
    requires
        a.same(&b),
    ensures
        a.rows() == b.rows(),
        a.wf() == b.wf(),
{
    assert forall|i: int| 0 <= i < a.num_rows() implies a.row(i) == b.row(i) by {
        assert(a.row(i) =~= b.row(i));
    }
    assert(a.rows() =~= b.rows());
}

} // verus!
