//! What calls that build matrices, shapes, instances, witnesses and keys give.
use super::cross_term::default_T;
use super::instance::{R1CSInstance, RelaxedR1CSInstance};
use super::params::{ck_label, R1CS};
use super::shape::{R1CSResult, R1CSShape};
use super::sparse::{entries_within, listed_row, SparseMatrix};
use super::witness::{R1CSWitness, RelaxedR1CSWitness};
use crate::errors::NovaError;
use crate::field::{values, zeros, Scalar};
use crate::traits::{Commitment, CommitmentEngineTrait, CommitmentKey, CommitmentTrait, Engine, CE};
use vstd::prelude::*;

verus! {

/// The entries listed for a row are those that a filter keeps.
proof fn lemma_listed_row<S: Scalar>(
    list: Seq<(usize, usize, S)>,
    row: int,
    in_row: spec_fn((usize, usize, S)) -> bool,
)
    requires
        forall|e: (usize, usize, S)| #[trigger] in_row(e) == (e.0 == row),
    ensures
        listed_row(list, row).len() == list.filter(in_row).len(),
        forall|k: int|
            0 <= k < list.filter(in_row).len() ==> #[trigger] listed_row(list, row)[k] == (
                list.filter(in_row)[k].1 as nat,
                list.filter(in_row)[k].2.value(),
            ),
    decreases list.len(),
{
    reveal(Seq::filter);
    if list.len() > 0 {
        lemma_listed_row(list.drop_last(), row, in_row);
        assert(in_row(list.last()) == (list.last().0 == row));
    }
}

/// The entries of a row of a new matrix are those that the list has for the row, all of them, with
/// their columns and coefficients and in the order of the list; there are as many rows and columns
/// as asked for.
pub proof fn law_new_matrix_has_the_listed_entries<S: Scalar>(
    list: &[(usize, usize, S)],
    rows: usize,
    cols: usize,
    M: SparseMatrix<S>,
    i: int,
    in_row: spec_fn((usize, usize, S)) -> bool,
)
    requires
        call_ensures(SparseMatrix::<S>::new, (list, rows, cols), M),
        0 <= i < rows,
        forall|e: (usize, usize, S)| #[trigger] in_row(e) == (e.0 == i),
    ensures
        M.cols == cols,
        M.indptr@.len() == rows + 1,
        M.indptr@[0] == 0,
        M.indptr@.last() == M.indices@.len(),
        M.data@.len() == M.indices@.len(),
        M.indptr@[i + 1] - M.indptr@[i] == list@.filter(in_row).len(),
        forall|k: int|
            0 <= k < list@.filter(in_row).len() ==> {
                &&& M.indices@[M.indptr@[i] + k] == (#[trigger] list@.filter(in_row)[k]).1
                &&& M.data@[M.indptr@[i] + k].value() == list@.filter(in_row)[k].2.value()
            },
{
    lemma_listed_row(list@, i, in_row);
    assert(M.rows().len() == rows);
    assert(M.rows()[i] == listed_row(list@, i));
    assert(M.rows()[i] == M.row(i));
    assert(M.indptr@[i] <= M.indptr@[i + 1]);
    assert forall|k: int| 0 <= k < list@.filter(in_row).len() implies {
        &&& M.indices@[M.indptr@[i] + k] == (#[trigger] list@.filter(in_row)[k]).1
        &&& M.data@[M.indptr@[i] + k].value() == list@.filter(in_row)[k].2.value()
    } by {
        assert(M.row(i)[k] == listed_row(list@, i)[k]);
    }
}

/// The check for a well-formed matrix succeeds where and only where the row starts begin at 0,
/// never decrease and end at the number of entries, each of which has a column and a coefficient.
pub proof fn law_matrix_check<S: Scalar>(M: SparseMatrix<S>, r: bool)
    requires
        call_ensures(SparseMatrix::<S>::is_well_formed, (&M,), r),
    ensures
        r <==> {
            &&& M.indptr@.len() >= 1
            &&& M.indptr@[0] == 0
            &&& M.indptr@[M.indptr@.len() - 1] == M.indices@.len()
            &&& M.data@.len() == M.indices@.len()
            &&& forall|i: int, j: int|
                0 <= i <= j < M.indptr@.len() ==> M.indptr@[i] <= M.indptr@[j]
        },
{
}

/// A copy of a matrix holds the same entries in the same places.
pub proof fn law_matrix_copy<S: Scalar>(M: SparseMatrix<S>, r: SparseMatrix<S>)
    requires
        call_ensures(<SparseMatrix<S> as Clone>::clone, (&M,), r),
    ensures
        r.data@ == M.data@,
        r.indices@ == M.indices@,
        r.indptr@ == M.indptr@,
        r.cols == M.cols,
{
}

/// Every entry lies in some row.
proof fn lemma_row_of_entry<S: Scalar>(M: SparseMatrix<S>, k: int, n: int) -> (i: int)
    requires
        M.wf(),
        0 <= n < M.indptr@.len(),
        0 <= k < M.indptr@[n],
    ensures
        0 <= i < n,
        M.indptr@[i] <= k < M.indptr@[i + 1],
    decreases n,
{
    if M.indptr@[n - 1] <= k {
        n - 1
    } else {
        lemma_row_of_entry(M, k, n - 1)
    }
}

/// Entries lie within some rows and columns where the columns do and the further rows are empty.
proof fn lemma_entries_within<S: Scalar>(M: SparseMatrix<S>, height: nat, width: nat)
    requires
        M.wf(),
    ensures
        entries_within(M.rows(), height, width) <==> {
            &&& forall|k: int| 0 <= k < M.indices@.len() ==> #[trigger] M.indices@[k] < width
            &&& forall|i: int|
                height <= i < M.indptr@.len() - 1 ==> #[trigger] M.indptr@[i] == M.indptr@[i + 1]
        },
{
    let rows = M.rows();
    if entries_within(rows, height, width) {
        assert forall|k: int| 0 <= k < M.indices@.len() implies #[trigger] M.indices@[k]
            < width by {
            let i = lemma_row_of_entry(M, k, M.indptr@.len() - 1);
            assert(rows[i] == M.row(i));
            assert(rows[i][k - M.indptr@[i]].0 < width);
        }
        assert forall|i: int| height <= i < M.indptr@.len() - 1 implies #[trigger] M.indptr@[i]
            == M.indptr@[i + 1] by {
            assert(rows[i] == M.row(i));
            if M.indptr@[i] < M.indptr@[i + 1] {
                assert(rows[i][0].0 < width);
            }
        }
    }
    if (forall|k: int| 0 <= k < M.indices@.len() ==> #[trigger] M.indices@[k] < width) && (forall|
        i: int,
    |
        height <= i < M.indptr@.len() - 1 ==> #[trigger] M.indptr@[i] == M.indptr@[i + 1]) {
        assert forall|i: int, k: int| 0 <= i < rows.len() && 0 <= k < rows[i].len() implies (
        #[trigger] rows[i][k]).0 < width && i < height by {
            assert(rows[i] == M.row(i));
            assert(M.indptr@[i + 1] <= M.indptr@.last());
            assert(M.indices@[M.indptr@[i] + k] < width);
            assert(M.indptr@[i] < M.indptr@[i + 1]);
        }
    }
}

/// A shape is made where and only where each matrix has all its entries in the columns of a vector
/// of variables, one scalar and inputs and outputs, and none below the constraints. It then has
/// just the given sizes and matrices, each in its place, and keeps no digest.
pub proof fn law_new_shape<E: Engine>(
    num_cons: usize,
    num_vars: usize,
    num_io: usize,
    A: SparseMatrix<E::Scalar>,
    B: SparseMatrix<E::Scalar>,
    C: SparseMatrix<E::Scalar>,
    r: Result<R1CSShape<E>, NovaError>,
)
    requires
        A.wf(),
        B.wf(),
        C.wf(),
        call_ensures(R1CSShape::<E>::new, (num_cons, num_vars, num_io, A, B, C), r),
    ensures
        r is Ok <==> {
            &&& forall|k: int|
                0 <= k < A.indices@.len() ==> #[trigger] A.indices@[k] <= num_io + num_vars
            &&& forall|k: int|
                0 <= k < B.indices@.len() ==> #[trigger] B.indices@[k] <= num_io + num_vars
            &&& forall|k: int|
                0 <= k < C.indices@.len() ==> #[trigger] C.indices@[k] <= num_io + num_vars
            &&& forall|i: int|
                num_cons <= i < A.indptr@.len() - 1 ==> #[trigger] A.indptr@[i] == A.indptr@[i + 1]
            &&& forall|i: int|
                num_cons <= i < B.indptr@.len() - 1 ==> #[trigger] B.indptr@[i] == B.indptr@[i + 1]
            &&& forall|i: int|
                num_cons <= i < C.indptr@.len() - 1 ==> #[trigger] C.indptr@[i] == C.indptr@[i + 1]
        },
        r is Err ==> r == Err::<R1CSShape<E>, _>(NovaError::InvalidIndex),
        r matches Ok(S) ==> {
            &&& S.num_cons == num_cons
            &&& S.num_vars == num_vars
            &&& S.num_io == num_io
            &&& S.A == A
            &&& S.B == B
            &&& S.C == C
            &&& S.kept_digest() is None
        },
{
    let width = (num_io + num_vars + 1) as nat;
    lemma_entries_within(A, num_cons as nat, width);
    lemma_entries_within(B, num_cons as nat, width);
    lemma_entries_within(C, num_cons as nat, width);
}

/// The check for a well-formed shape succeeds where and only where that for each matrix does and a
/// shape could be made of the same parts.
pub proof fn law_shape_check<E: Engine>(
    S: R1CSShape<E>,
    r: bool,
    a: bool,
    b: bool,
    c: bool,
    made: Result<R1CSShape<E>, NovaError>,
)
    requires
        call_ensures(R1CSShape::<E>::is_well_formed, (&S,), r),
        call_ensures(SparseMatrix::<E::Scalar>::is_well_formed, (&S.A,), a),
        call_ensures(SparseMatrix::<E::Scalar>::is_well_formed, (&S.B,), b),
        call_ensures(SparseMatrix::<E::Scalar>::is_well_formed, (&S.C,), c),
        call_ensures(
            R1CSShape::<E>::new,
            (S.num_cons, S.num_vars, S.num_io, S.A, S.B, S.C),
            made,
        ),
    ensures
        r <==> a && b && c && made is Ok,
{
}

/// A copy of a shape has the same sizes, the same matrices and the same digest.
pub proof fn law_shape_copy<E: Engine>(S: R1CSShape<E>, r: R1CSShape<E>)
    requires
        call_ensures(<R1CSShape<E> as Clone>::clone, (&S,), r),
    ensures
        r.num_cons == S.num_cons,
        r.num_vars == S.num_vars,
        r.num_io == S.num_io,
        r.A.data@ == S.A.data@ && r.A.indices@ == S.A.indices@ && r.A.indptr@ == S.A.indptr@,
        r.B.data@ == S.B.data@ && r.B.indices@ == S.B.indices@ && r.B.indptr@ == S.B.indptr@,
        r.C.data@ == S.C.data@ && r.C.indices@ == S.C.indices@ && r.C.indptr@ == S.C.indptr@,
        r.A.cols == S.A.cols && r.B.cols == S.B.cols && r.C.cols == S.C.cols,
        r.kept_digest() == S.kept_digest(),
{
}

/// A witness is made of the given variables where and only where there is one for every variable of
/// the shape.
pub proof fn law_new_witness<E: Engine>(
    S: R1CSShape<E>,
    W: Vec<E::Scalar>,
    r: Result<R1CSWitness<E>, NovaError>,
)
    requires
        call_ensures(R1CSWitness::<E>::new, (&S, W), r),
    ensures
        W@.len() == S.num_vars ==> (r matches Ok(w) && w.W == W),
        W@.len() != S.num_vars ==> r == Err::<R1CSWitness<E>, _>(NovaError::InvalidWitnessLength),
{
}

/// An instance is made of the given commitment and public inputs and outputs where and only where
/// there are as many as the shape has.
pub proof fn law_new_instance<E: Engine>(
    S: R1CSShape<E>,
    comm_W: Commitment<E>,
    X: Vec<E::Scalar>,
    r: Result<R1CSInstance<E>, NovaError>,
)
    requires
        call_ensures(R1CSInstance::<E>::new, (&S, comm_W, X), r),
    ensures
        X@.len() == S.num_io ==> (r matches Ok(U) && U.comm_W == comm_W && U.X == X),
        X@.len() != S.num_io ==> r == Err::<R1CSInstance<E>, _>(NovaError::InvalidInputLength),
{
}

/// Elements that stand for zeros, place by place.
proof fn lemma_zero_values<S: Scalar>(v: Seq<S>, n: nat)
    requires
        values(v) == zeros(n),
    ensures
        v.len() == n,
        forall|i: int| 0 <= i < n ==> (#[trigger] v[i]).value() == 0,
{
    assert(values(v).len() == v.len());
    assert forall|i: int| 0 <= i < n implies (#[trigger] v[i]).value() == 0 by {
        assert(values(v)[i] == v[i].value());
        assert(values(v)[i] == zeros(n)[i]);
    }
}

/// The default result, witness and instance of a shape hold zeros, as many as the shape asks for,
/// and neutral commitments.
pub proof fn law_defaults_are_zero<E: Engine>(
    S: R1CSShape<E>,
    ck: CommitmentKey<E>,
    r: R1CSResult<E>,
    W: RelaxedR1CSWitness<E>,
    U: RelaxedR1CSInstance<E>,
)
    requires
        call_ensures(R1CSResult::<E>::default, (&S,), r),
        call_ensures(RelaxedR1CSWitness::<E>::default, (&S,), W),
        call_ensures(RelaxedR1CSInstance::<E>::default, (&ck, &S), U),
    ensures
        r.AZ@.len() == S.num_cons,
        r.BZ@.len() == S.num_cons,
        r.CZ@.len() == S.num_cons,
        forall|i: int| 0 <= i < S.num_cons ==> (#[trigger] r.AZ@[i]).value() == 0,
        forall|i: int| 0 <= i < S.num_cons ==> (#[trigger] r.BZ@[i]).value() == 0,
        forall|i: int| 0 <= i < S.num_cons ==> (#[trigger] r.CZ@[i]).value() == 0,
        W.W@.len() == S.num_vars,
        W.E@.len() == S.num_cons,
        forall|i: int| 0 <= i < S.num_vars ==> (#[trigger] W.W@[i]).value() == 0,
        forall|i: int| 0 <= i < S.num_cons ==> (#[trigger] W.E@[i]).value() == 0,
        U.X@.len() == S.num_io,
        forall|i: int| 0 <= i < S.num_io ==> (#[trigger] U.X@[i]).value() == 0,
        U.u.value() == 0,
        U.comm_W.element() == Commitment::<E>::neutral(),
        U.comm_E.element() == Commitment::<E>::neutral(),
{
    lemma_zero_values(r.AZ@, S.num_cons as nat);
    lemma_zero_values(r.BZ@, S.num_cons as nat);
    lemma_zero_values(r.CZ@, S.num_cons as nat);
    lemma_zero_values(W.W@, S.num_vars as nat);
    lemma_zero_values(W.E@, S.num_cons as nat);
    lemma_zero_values(U.X@, S.num_io as nat);
}

/// The relaxed form of an instance, checked or not, has its commitment and public inputs and
/// outputs, the scalar 1 and a neutral commitment to errors.
pub proof fn law_relaxed_instance_has_the_parts<E: Engine>(
    ck: CommitmentKey<E>,
    S: R1CSShape<E>,
    instance: R1CSInstance<E>,
    X: &[E::Scalar],
    U: RelaxedR1CSInstance<E>,
    V: RelaxedR1CSInstance<E>,
)
    requires
        instance.X@.len() == S.num_io,
        X@ == instance.X@,
        call_ensures(RelaxedR1CSInstance::<E>::from_r1cs_instance, (&ck, &S, instance), U),
        call_ensures(
            RelaxedR1CSInstance::<E>::from_r1cs_instance_unchecked,
            (&instance.comm_W, X),
            V,
        ),
    ensures
        U.comm_W == instance.comm_W,
        U.comm_E.element() == Commitment::<E>::neutral(),
        U.X@ == instance.X@,
        U.u.value() == 1,
        V.comm_W == instance.comm_W,
        V.comm_E.element() == Commitment::<E>::neutral(),
        V.X@ == instance.X@,
        V.u.value() == 1,
{
}

/// The relaxed form of a witness has its variables, and an error of 0 for every constraint.
pub proof fn law_relaxed_witness_has_no_errors<E: Engine>(
    S: R1CSShape<E>,
    witness: R1CSWitness<E>,
    W: RelaxedR1CSWitness<E>,
)
    requires
        call_ensures(RelaxedR1CSWitness::<E>::from_r1cs_witness, (&S, witness), W),
    ensures
        W.W@ == witness.W@,
        W.E@.len() == S.num_cons,
        forall|i: int| 0 <= i < S.num_cons ==> (#[trigger] W.E@[i]).value() == 0,
{
    lemma_zero_values(W.E@, S.num_cons as nat);
}

/// A key is set up from the label `ck`, with as many generators as the largest of the number of
/// constraints, the number of variables and a floor that the hint gives for the shape.
pub proof fn law_key_is_large_enough<E: Engine, F: Fn(&R1CSShape<E>) -> usize + ?Sized>(
    S: R1CSShape<E>,
    hint: &F,
    label: Seq<u8>,
    ck: CommitmentKey<E>,
)
    requires
        label == seq![99u8, 107u8],
        call_ensures(R1CS::<E>::commitment_key::<F>, (&S, hint), ck),
    ensures
        exists|floor: usize, n: nat| #[trigger]
            hint.ensures((&S,), floor) && #[trigger] CE::<E>::is_setup(label, n, ck) && n
                >= floor && n >= S.num_cons && n >= S.num_vars && (n == floor || n == S.num_cons
                || n == S.num_vars) && CE::<E>::capacity(ck) >= n,
        CE::<E>::capacity(ck) >= S.num_cons,
        CE::<E>::capacity(ck) >= S.num_vars,
{
    let floor = choose|floor: usize| #[trigger]
        hint.ensures((&S,), floor) && CE::<E>::is_setup(
            ck_label(),
            R1CS::<E>::num_generators(S, floor),
            ck,
        ) && CE::<E>::capacity(ck) >= R1CS::<E>::num_generators(S, floor);
    let n = R1CS::<E>::num_generators(S, floor);
    assert(ck_label() =~= label);
    assert(CE::<E>::is_setup(label, n, ck));
}

/// A new buffer for the cross-term is empty.
pub proof fn law_new_buffer_is_empty<E: Engine>(S: R1CSShape<E>, T: Vec<E::Scalar>)
    requires
        call_ensures(default_T::<E>, (&S,), T),
    ensures
        T@.len() == 0,
{
}

} // verus!
