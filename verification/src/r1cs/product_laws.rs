//! What a call of a product gives, entry by entry of the matrices.
use super::shape::{R1CSResult, R1CSShape};
use super::sparse::{assignment, row_sum, SparseMatrix};
use crate::errors::NovaError;
use crate::field::{values, Scalar};
use crate::traits::Engine;
use vstd::arithmetic::div_mod::*;
use vstd::prelude::*;

verus! {

/// The sum over a row is the last of its running sums.
proof fn lemma_running_sum(row: Seq<(nat, nat)>, z: Seq<nat>, s: Seq<int>)
    requires
        s.len() == row.len() + 1,
        s[0] == 0,
        forall|k: int|
            0 <= k < row.len() ==> #[trigger] s[k + 1] == s[k] + row[k].1 * z[row[k].0 as int],
    ensures
        row_sum(row, z) == s[row.len() as int],
    decreases row.len(),
{
    if row.len() > 0 {
        let n = row.len() - 1;
        let (rest, head) = (row.drop_last(), s.drop_last());
        assert forall|k: int| 0 <= k < rest.len() implies #[trigger] head[k + 1] == head[k]
            + rest[k].1 * z[rest[k].0 as int] by {
            assert(s[k + 1] == s[k] + row[k].1 * z[row[k].0 as int]);
        }
        lemma_running_sum(rest, z, head);
        assert(s[n + 1] == s[n] + row[n].1 * z[row[n].0 as int]);
    }
}

/// The item of a product at a row is, up to multiples of the modulus, the last of the running sums
/// over all entries of the row, each of which adds the entry times what the vector holds at the
/// column of the entry.
pub proof fn law_product_sums_all_entries<S: Scalar>(
    M: SparseMatrix<S>,
    z: &[S],
    r: Vec<S>,
    i: int,
    s: Seq<int>,
)
    requires
        M.wf(),
        forall|k: int| 0 <= k < M.indices@.len() ==> #[trigger] M.indices@[k] < z@.len(),
        call_ensures(SparseMatrix::<S>::multiply_vec, (&M, z), r),
        0 <= i < M.indptr@.len() - 1,
        s.len() == M.indptr@[i + 1] - M.indptr@[i] + 1,
        s[0] == 0,
        forall|k: int|
            0 <= k < s.len() - 1 ==> #[trigger] s[k + 1] == s[k] + M.data@[M.indptr@[i] + k].value()
                * z@[M.indices@[M.indptr@[i] + k] as int].value(),
    ensures
        r@.len() == M.indptr@.len() - 1,
        r@[i].value() == s.last() % (S::modulus() as int),
{
    let row = M.row(i);
    let zs = values(z@);
    assert(values(r@).len() == r@.len());
    assert(M.indptr@[i] <= M.indptr@[i + 1]);
    assert(M.indptr@[i + 1] <= M.indptr@.last());
    assert(M.rows()[i] == row);
    assert(values(r@)[i] == r@[i].value());
    assert forall|k: int| 0 <= k < row.len() implies #[trigger] s[k + 1] == s[k] + row[k].1
        * zs[row[k].0 as int] by {
        let c = M.indices@[M.indptr@[i] + k];
        assert(c < z@.len());
        assert(row[k] == (c as nat, M.data@[M.indptr@[i] + k].value()));
        assert(zs[c as int] == z@[c as int].value());
    }
    lemma_running_sum(row, zs, s);
    S::lemma_residue(r@[i]);
}

/// The product of a matrix with the vector that is 1 in one column and 0 elsewhere has in every row
/// the sum of all coefficients of the row in that column, however many entries the row has.
pub proof fn law_unit_vector_reads_a_column<S: Scalar>(
    M: SparseMatrix<S>,
    c: int,
    z: &[S],
    r: Vec<S>,
    i: int,
    s: Seq<int>,
)
    requires
        M.wf(),
        forall|k: int| 0 <= k < M.indices@.len() ==> #[trigger] M.indices@[k] < z@.len(),
        0 <= c < z@.len(),
        forall|j: int|
            0 <= j < z@.len() ==> (#[trigger] z@[j]).value() == if j == c {
                1nat
            } else {
                0nat
            },
        call_ensures(SparseMatrix::<S>::multiply_vec, (&M, z), r),
        0 <= i < M.indptr@.len() - 1,
        s.len() == M.indptr@[i + 1] - M.indptr@[i] + 1,
        s[0] == 0,
        forall|k: int|
            0 <= k < s.len() - 1 ==> #[trigger] s[k + 1] == s[k] + if M.indices@[M.indptr@[i] + k]
                == c {
                M.data@[M.indptr@[i] + k].value()
            } else {
                0
            },
    ensures
        r@[i].value() == s.last() % (S::modulus() as int),
{
    assert(M.indptr@[i + 1] <= M.indptr@.last());
    assert forall|k: int| 0 <= k < s.len() - 1 implies #[trigger] s[k + 1] == s[k]
        + M.data@[M.indptr@[i] + k].value() * z@[M.indices@[M.indptr@[i] + k] as int].value() by {
        let col = M.indices@[M.indptr@[i] + k] as int;
        let v = M.data@[M.indptr@[i] + k].value();
        assert(col < z@.len());
        assert(v * 1 == v && v * 0 == 0) by (nonlinear_arith);
        assert(z@[col].value() == 0 || z@[col].value() == 1);
    }
    law_product_sums_all_entries(M, z, r, i, s);
}

/// One more entry at the end of a row adds the entry times what the vector holds at its column to
/// the item of the product at that row, and changes no other item.
pub proof fn law_entry_adds_to_its_row<S: Scalar>(
    M: SparseMatrix<S>,
    N: SparseMatrix<S>,
    z: &[S],
    i: int,
    c: usize,
    v: S,
    r: Vec<S>,
    q: Vec<S>,
)
    requires
        M.wf(),
        N.wf(),
        0 <= i < M.indptr@.len() - 1,
        N.indptr@.len() == M.indptr@.len(),
        forall|j: int|
            0 <= j < M.indptr@.len() ==> #[trigger] N.indptr@[j] == M.indptr@[j] + if j > i {
                1int
            } else {
                0int
            },
        N.indices@ == M.indices@.insert(M.indptr@[i + 1] as int, c),
        N.data@ == M.data@.insert(M.indptr@[i + 1] as int, v),
        forall|k: int| 0 <= k < N.indices@.len() ==> #[trigger] N.indices@[k] < z@.len(),
        call_ensures(SparseMatrix::<S>::multiply_vec, (&M, z), r),
        call_ensures(SparseMatrix::<S>::multiply_vec, (&N, z), q),
    ensures
        q@.len() == r@.len(),
        q@[i].value() == (r@[i].value() + v.value() * z@[c as int].value()) % S::modulus(),
        forall|j: int|
            0 <= j < r@.len() && j != i ==> (#[trigger] q@[j]).value() == r@[j].value(),
{
    let m = S::modulus();
    let zs = values(z@);
    let p = M.indptr@[i + 1] as int;
    assert(p <= M.indptr@.last());
    assert(values(r@).len() == r@.len() && values(q@).len() == q@.len());
    assert(N.indices@[p] == c);
    assert(N.row(i) =~= M.row(i).push((c as nat, v.value())));
    assert(M.rows()[i] == M.row(i) && N.rows()[i] == N.row(i));
    assert(N.row(i).drop_last() =~= M.row(i));
    assert(values(r@)[i] == r@[i].value() && values(q@)[i] == q@[i].value());
    assert(zs[c as int] == z@[c as int].value());
    S::lemma_residue(v);
    lemma_add_mod_noop_right(
        (v.value() * zs[c as int]) as int,
        row_sum(M.row(i), zs) as int,
        m as int,
    );
    assert forall|j: int| 0 <= j < r@.len() && j != i implies (#[trigger] q@[j]).value()
        == r@[j].value() by {
        assert(M.indptr@[j + 1] <= M.indptr@.last());
        assert(N.indptr@[j + 1] - N.indptr@[j] == M.indptr@[j + 1] - M.indptr@[j]);
        if j < i {
            assert(M.indptr@[j + 1] <= p);
        } else {
            assert(p <= M.indptr@[j]);
        }
        assert(N.row(j) =~= M.row(j));
        assert(M.rows()[j] == M.row(j) && N.rows()[j] == N.row(j));
        assert(values(r@)[j] == r@[j].value() && values(q@)[j] == q@[j].value());
    }
}

/// The products that a shape gives are those of `A`, of `B` and of `C`, in this order. They are
/// given where and only where the vector has an item for every variable, for the scalar and for
/// every input and output.
pub proof fn law_shape_multiplies_each_matrix<E: Engine>(
    S: R1CSShape<E>,
    z: &[E::Scalar],
    a: Vec<E::Scalar>,
    b: Vec<E::Scalar>,
    c: Vec<E::Scalar>,
    r: Result<(Vec<E::Scalar>, Vec<E::Scalar>, Vec<E::Scalar>), NovaError>,
)
    requires
        S.wf(),
        call_ensures(SparseMatrix::<E::Scalar>::multiply_vec, (&S.A, z), a),
        call_ensures(SparseMatrix::<E::Scalar>::multiply_vec, (&S.B, z), b),
        call_ensures(SparseMatrix::<E::Scalar>::multiply_vec, (&S.C, z), c),
        call_ensures(R1CSShape::<E>::multiply_vec, (&S, z), r),
    ensures
        z@.len() != S.num_vars + 1 + S.num_io ==> r == Err::<
            (Vec<E::Scalar>, Vec<E::Scalar>, Vec<E::Scalar>),
            _,
        >(NovaError::InvalidWitnessLength),
        z@.len() == S.num_vars + 1 + S.num_io ==> {
            &&& r matches Ok(p)
            &&& p.0@.len() == a@.len()
            &&& p.1@.len() == b@.len()
            &&& p.2@.len() == c@.len()
            &&& forall|i: int| 0 <= i < a@.len() ==> (#[trigger] p.0@[i]).value() == a@[i].value()
            &&& forall|i: int| 0 <= i < b@.len() ==> (#[trigger] p.1@[i]).value() == b@[i].value()
            &&& forall|i: int| 0 <= i < c@.len() ==> (#[trigger] p.2@[i]).value() == c@[i].value()
        },
{
    if z@.len() == S.num_vars + 1 + S.num_io {
        let p = r->Ok_0;
        lemma_equal_values(p.0@, a@);
        lemma_equal_values(p.1@, b@);
        lemma_equal_values(p.2@, c@);
    }
}

/// Elements with the same integers have them place by place.
pub(crate) proof fn lemma_equal_values<S: Scalar>(a: Seq<S>, b: Seq<S>)
    requires
        values(a) == values(b),
    ensures
        a.len() == b.len(),
        forall|i: int| 0 <= i < a.len() ==> (#[trigger] a[i]).value() == b[i].value(),
{
    assert(values(a).len() == a.len() && values(b).len() == b.len());
    assert forall|i: int| 0 <= i < a.len() implies (#[trigger] a[i]).value() == b[i].value() by {
        assert(values(a)[i] == a[i].value() && values(b)[i] == b[i].value());
    }
}

/// The product of a matrix with a witness, a scalar and public inputs and outputs is the product
/// with these written one after the other.
pub proof fn law_matrix_times_witness<S: Scalar>(
    M: SparseMatrix<S>,
    W: &[S],
    u: S,
    X: &[S],
    z: &[S],
    r: Vec<S>,
    q: Vec<S>,
)
    requires
        z@ == W@ + seq![u] + X@,
        call_ensures(SparseMatrix::<S>::multiply_witness, (&M, W, &u, X), r),
        call_ensures(SparseMatrix::<S>::multiply_vec, (&M, z), q),
    ensures
        r@.len() == q@.len(),
        forall|i: int| 0 <= i < q@.len() ==> (#[trigger] r@[i]).value() == q@[i].value(),
{
    assert(values(z@) =~= assignment(values(W@), u.value(), values(X@)));
    lemma_equal_values(r@, q@);
}

/// A sink then holds the product of a matrix with a witness, a scalar and public inputs and
/// outputs, which is the product with these written one after the other.
pub proof fn law_matrix_times_witness_into<S: Scalar>(
    M: SparseMatrix<S>,
    W: &[S],
    u: S,
    X: &[S],
    z: &[S],
    sink: &mut Vec<S>,
    q: Vec<S>,
)
    requires
        z@ == W@ + seq![u] + X@,
        call_ensures(SparseMatrix::<S>::multiply_witness_into, (&M, W, &u, X, sink), ()),
        call_ensures(SparseMatrix::<S>::multiply_vec, (&M, z), q),
    ensures
        final(sink)@.len() == q@.len(),
        forall|i: int|
            0 <= i < q@.len() ==> (#[trigger] final(sink)@[i]).value() == q@[i].value(),
{
    assert(values(z@) =~= assignment(values(W@), u.value(), values(X@)));
    lemma_equal_values(final(sink)@, q@);
}

/// The products that a shape gives for a witness, a scalar and public inputs and outputs are those
/// for these written one after the other. They are given where and only where there is a value for
/// every variable and for every input and output.
pub proof fn law_shape_times_witness<E: Engine>(
    S: R1CSShape<E>,
    W: &[E::Scalar],
    u: E::Scalar,
    X: &[E::Scalar],
    z: &[E::Scalar],
    r: Result<(Vec<E::Scalar>, Vec<E::Scalar>, Vec<E::Scalar>), NovaError>,
    q: Result<(Vec<E::Scalar>, Vec<E::Scalar>, Vec<E::Scalar>), NovaError>,
)
    requires
        z@ == W@ + seq![u] + X@,
        call_ensures(R1CSShape::<E>::multiply_witness, (&S, W, &u, X), r),
        call_ensures(R1CSShape::<E>::multiply_vec, (&S, z), q),
    ensures
        W@.len() != S.num_vars || X@.len() != S.num_io ==> r == Err::<
            (Vec<E::Scalar>, Vec<E::Scalar>, Vec<E::Scalar>),
            _,
        >(NovaError::InvalidWitnessLength),
        W@.len() == S.num_vars && X@.len() == S.num_io ==> {
            &&& r matches Ok(p)
            &&& q matches Ok(t)
            &&& p.0@.len() == t.0@.len()
            &&& p.1@.len() == t.1@.len()
            &&& p.2@.len() == t.2@.len()
            &&& forall|i: int|
                0 <= i < t.0@.len() ==> (#[trigger] p.0@[i]).value() == t.0@[i].value()
            &&& forall|i: int|
                0 <= i < t.1@.len() ==> (#[trigger] p.1@[i]).value() == t.1@[i].value()
            &&& forall|i: int|
                0 <= i < t.2@.len() ==> (#[trigger] p.2@[i]).value() == t.2@[i].value()
        },
{
    assert(values(z@) =~= assignment(values(W@), u.value(), values(X@)));
    if W@.len() == S.num_vars && X@.len() == S.num_io {
        let (p, t) = (r->Ok_0, q->Ok_0);
        lemma_equal_values(p.0@, t.0@);
        lemma_equal_values(p.1@, t.1@);
        lemma_equal_values(p.2@, t.2@);
    }
}

/// A result then holds the products that a shape gives for a witness, a scalar and public inputs
/// and outputs; where the lengths do not fit, it holds what it held.
pub proof fn law_shape_times_witness_into<E: Engine>(
    S: R1CSShape<E>,
    W: &[E::Scalar],
    u: E::Scalar,
    X: &[E::Scalar],
    ABC_Z: &mut R1CSResult<E>,
    r: Result<(), NovaError>,
    q: Result<(Vec<E::Scalar>, Vec<E::Scalar>, Vec<E::Scalar>), NovaError>,
)
    requires
        call_ensures(R1CSShape::<E>::multiply_witness_into, (&S, W, &u, X, ABC_Z), r),
        call_ensures(R1CSShape::<E>::multiply_witness, (&S, W, &u, X), q),
    ensures
        W@.len() != S.num_vars || X@.len() != S.num_io ==> {
            &&& r == Err::<(), _>(NovaError::InvalidWitnessLength)
            &&& *final(ABC_Z) == *old(ABC_Z)
        },
        W@.len() == S.num_vars && X@.len() == S.num_io ==> {
            &&& r is Ok
            &&& q matches Ok(t)
            &&& final(ABC_Z).AZ@.len() == t.0@.len()
            &&& final(ABC_Z).BZ@.len() == t.1@.len()
            &&& final(ABC_Z).CZ@.len() == t.2@.len()
            &&& forall|i: int|
                0 <= i < t.0@.len() ==> (#[trigger] final(ABC_Z).AZ@[i]).value() == t.0@[i].value()
            &&& forall|i: int|
                0 <= i < t.1@.len() ==> (#[trigger] final(ABC_Z).BZ@[i]).value() == t.1@[i].value()
            &&& forall|i: int|
                0 <= i < t.2@.len() ==> (#[trigger] final(ABC_Z).CZ@[i]).value() == t.2@[i].value()
        },
{
    if W@.len() == S.num_vars && X@.len() == S.num_io {
        let (p, t) = (*final(ABC_Z), q->Ok_0);
        lemma_equal_values(p.AZ@, t.0@);
        lemma_equal_values(p.BZ@, t.1@);
        lemma_equal_values(p.CZ@, t.2@);
    }
}

} // verus!
