//! Padding gives regular shapes, changes nothing the second time, and keeps satisfaction.
use super::instance::RelaxedR1CSInstance;
use super::padding::{padded_rows, shifted_column, shifted_row};
use super::satisfiability::constraint_holds;
use super::shape::R1CSShape;
use super::sparse::{assignment, entries_within, product, row_sum};
use super::witness::RelaxedR1CSWitness;
use crate::field::{are_residues, lemma_values_are_residues, values, zeros, Scalar};
use crate::errors::NovaError;
use crate::powers::{is_power_of_two, law_next_power_of_two};
use crate::traits::{CommitmentEngineTrait, CommitmentKey, Engine, CE};
use vstd::arithmetic::div_mod::lemma_small_mod;
use vstd::arithmetic::power2::pow2;
use vstd::prelude::*;

verus! {

/// A padded shape is regular.
pub proof fn law_padded_shape_is_regular<E: Engine>(S: R1CSShape<E>, P: R1CSShape<E>)
    requires
        S.padded_to(P),
    ensures
        P.regular(),
{
    lemma_padded_size(S);
    lemma_padded_size(P);
}

/// Padding a padded shape changes nothing.
pub proof fn law_padding_is_idempotent<E: Engine>(
    S: R1CSShape<E>,
    P: R1CSShape<E>,
    Q: R1CSShape<E>,
)
    requires
        S.padded_to(P),
        P.padded_to(Q),
    ensures
        Q.same_constraints(&P),
        Q.kept_digest() == P.kept_digest(),
{
    lemma_padded_size(S);
    lemma_padded_size(P);
}

/// The padded size is a power of two, and the first that is as large as the numbers of variables
/// and of constraints and larger than that of inputs and outputs.
proof fn lemma_padded_size<E: Engine>(S: R1CSShape<E>)
    ensures
        is_power_of_two(S.padded_size()),
        S.padded_size() >= S.num_vars,
        S.padded_size() >= S.num_cons,
        S.padded_size() > S.num_io,
        forall|p: nat|
            #[trigger] is_power_of_two(p) && p >= S.num_vars && p >= S.num_cons && p
                > S.num_io ==> p >= S.padded_size(),
{
    law_next_power_of_two(S.num_vars as nat);
    law_next_power_of_two(S.num_cons as nat);
    law_next_power_of_two((S.num_io + 1) as nat);
}

/// A shape with a row for every constraint keeps that under padding, except where there are
/// enough variables but not enough constraints.
pub proof fn law_padding_keeps_all_rows<E: Engine>(S: R1CSShape<E>, P: R1CSShape<E>)
    requires
        S.has_all_rows(),
        S.padded_to(P),
    ensures
        P.has_all_rows() <==> S.regular() || S.num_vars != S.padded_size() || S.num_cons
            == S.padded_size(),
{
    lemma_padded_size(S);
    assert(S.A.rows().len() == S.num_cons && S.B.rows().len() == S.num_cons && S.C.rows().len()
        == S.num_cons);
    assert(P.A.rows().len() == P.A.num_rows());
    assert(P.B.rows().len() == P.B.num_rows());
    assert(P.C.rows().len() == P.C.num_rows());
}

/// What a padded vector holds at the new place of a column is what the vector holds at the old
/// one.
proof fn lemma_shifted_column(W: Seq<nat>, u: nat, X: Seq<nat>, by: nat, c: nat)
    requires
        c < W.len() + 1 + X.len(),
    ensures
        assignment(W + zeros(by), u, X)[shifted_column(c, W.len(), by) as int] == assignment(
            W,
            u,
            X,
        )[c as int],
{
}

/// The sum over a padded row with a padded vector is the sum over the row with the vector.
proof fn lemma_shifted_row_sum(row: Seq<(nat, nat)>, W: Seq<nat>, u: nat, X: Seq<nat>, by: nat)
    requires
        forall|k: int| 0 <= k < row.len() ==> (#[trigger] row[k]).0 < W.len() + 1 + X.len(),
    ensures
        row_sum(shifted_row(row, W.len(), by), assignment(W + zeros(by), u, X)) == row_sum(
            row,
            assignment(W, u, X),
        ),
    decreases row.len(),
{
    if row.len() > 0 {
        let rest = row.drop_last();
        assert(row[row.len() - 1].0 < W.len() + 1 + X.len());
        assert forall|k: int| 0 <= k < rest.len() implies (#[trigger] rest[k]).0 < W.len() + 1
            + X.len() by {
            assert(rest[k] == row[k]);
        }
        lemma_shifted_row_sum(rest, W, u, X, by);
        lemma_shifted_column(W, u, X, by, row.last().0);
        assert(shifted_row(row, W.len(), by).drop_last() =~= shifted_row(rest, W.len(), by));
    }
}

/// The product of a padded matrix with a padded vector is the product of the matrix with the
/// vector, and zeros in the new rows.
pub proof fn law_padded_product(
    m: nat,
    rows: Seq<Seq<(nat, nat)>>,
    height: nat,
    W: Seq<nat>,
    u: nat,
    X: Seq<nat>,
    by: nat,
    extra: nat,
)
    requires
        m > 0,
        entries_within(rows, height, W.len() + 1 + X.len()),
    ensures
        product(m, padded_rows(rows, W.len(), by, extra), assignment(W + zeros(by), u, X))
            == product(m, rows, assignment(W, u, X)) + zeros(extra),
{
    let z = assignment(W, u, X);
    let padded = assignment(W + zeros(by), u, X);
    let left = product(m, padded_rows(rows, W.len(), by, extra), padded);
    let right = product(m, rows, z) + zeros(extra);
    assert forall|i: int| 0 <= i < right.len() implies left[i] == #[trigger] right[i] by {
        if i < rows.len() {
            assert forall|k: int| 0 <= k < rows[i].len() implies (#[trigger] rows[i][k]).0
                < W.len() + 1 + X.len() by {}
            lemma_shifted_row_sum(rows[i], W, u, X, by);
        } else {
            lemma_small_mod(0, m);
        }
    }
    assert(left =~= right);
}

/// A constraint without entries holds where there is no error.
proof fn lemma_zero_constraint(m: nat, u: nat)
    ensures
        constraint_holds(m, 0, 0, u, 0, 0),
{
    assert(u * 0 == 0) by (nonlinear_arith);
}

/// With a key, zeros behind a vector do not change the commitment to it, as far as the key
/// reaches.
pub open spec fn commits_past_zeros<E: Engine>(ck: CommitmentKey<E>) -> bool {
    forall|v: Seq<nat>, n: nat|
        v.len() + n <= CE::<E>::capacity(ck) && are_residues(E::Scalar::modulus(), v) ==> CE::<
            E,
        >::committed(ck, #[trigger] (v + zeros(n))) == CE::<E>::committed(ck, v)
}

/// A witness satisfies an instance of a shape where and only where the padded witness satisfies
/// the instance of the padded shape, where zeros behind a vector do not change its commitment.
/// The padded shape must have a row for every constraint, as it has unless the shape has enough
/// variables but not enough constraints.
pub proof fn law_padding_keeps_satisfaction<E: Engine>(
    S: R1CSShape<E>,
    P: R1CSShape<E>,
    ck: CommitmentKey<E>,
    U: RelaxedR1CSInstance<E>,
    W: RelaxedR1CSWitness<E>,
    PW: RelaxedR1CSWitness<E>,
)
    requires
        S.wf(),
        S.has_all_rows(),
        S.fits(W.W@, U.X@),
        W.E@.len() == S.num_cons,
        S.padded_to(P),
        P.has_all_rows(),
        W.padded_to(P, PW),
        P.num_vars <= CE::<E>::capacity(ck),
        P.num_cons <= CE::<E>::capacity(ck),
        commits_past_zeros::<E>(ck),
    ensures
        P.relaxed_satisfied(ck, U, PW) <==> S.relaxed_satisfied(ck, U, W),
        P.fits(PW.W@, U.X@),
        PW.E@.len() == P.num_cons,
{
    lemma_padded_size(S);
    let m = E::Scalar::modulus();
    E::Scalar::lemma_residue(U.u);
    let (w, x, u, e) = (values(W.W@), values(U.X@), U.u.value(), values(W.E@));
    let (pw, pe) = (values(PW.W@), values(PW.E@));
    let by = (P.num_vars - S.num_vars) as nat;
    let extra = (P.num_cons - S.num_cons) as nat;
    assert(pw == w + zeros(by) && pe == e + zeros(extra));
    assert(pw.len() == P.num_vars && pe.len() == P.num_cons);
    let (z, pz) = (assignment(w, u, x), assignment(pw, u, x));
    assert(S.A.rows().len() == S.num_cons && P.A.rows().len() == P.num_cons);
    assert(P.az(pz) == S.az(z) + zeros(extra) && P.bz(pz) == S.bz(z) + zeros(extra) && P.cz(pz)
        == S.cz(z) + zeros(extra)) by {
        if S.regular() || S.num_vars == S.padded_size() {
            assert(pw =~= w);
            assert(P.az(pz) =~= S.az(z) + zeros(extra));
            assert(P.bz(pz) =~= S.bz(z) + zeros(extra));
            assert(P.cz(pz) =~= S.cz(z) + zeros(extra));
        } else {
            law_padded_product(m, S.A.rows(), S.num_cons as nat, w, u, x, by, extra);
            law_padded_product(m, S.B.rows(), S.num_cons as nat, w, u, x, by, extra);
            law_padded_product(m, S.C.rows(), S.num_cons as nat, w, u, x, by, extra);
        }
    }
    lemma_values_are_residues(W.W@);
    lemma_values_are_residues(W.E@);
    assert(CE::<E>::committed(ck, w + zeros(by)) == CE::<E>::committed(ck, w));
    assert(CE::<E>::committed(ck, e + zeros(extra)) == CE::<E>::committed(ck, e));
    assert(S.A.rows().len() == S.num_cons && S.B.rows().len() == S.num_cons && S.C.rows().len()
        == S.num_cons);
    assert(S.relaxed_constraints_hold(w, e, u, x) ==> P.relaxed_constraints_hold(pw, pe, u, x)) by {
        if S.relaxed_constraints_hold(w, e, u, x) {
            assert forall|i: int| 0 <= i < P.num_cons implies #[trigger] constraint_holds(
                m,
                P.az(pz)[i],
                P.bz(pz)[i],
                u,
                P.cz(pz)[i],
                pe[i],
            ) by {
                let j = i - S.num_cons;
                if i < S.num_cons {
                    assert(P.az(pz)[i] == S.az(z)[i] && P.bz(pz)[i] == S.bz(z)[i]);
                    assert(P.cz(pz)[i] == S.cz(z)[i] && pe[i] == e[i]);
                    assert(constraint_holds(m, S.az(z)[i], S.bz(z)[i], u, S.cz(z)[i], e[i]));
                } else {
                    assert(P.az(pz)[i] == zeros(extra)[j] && P.bz(pz)[i] == zeros(extra)[j]);
                    assert(P.cz(pz)[i] == zeros(extra)[j] && pe[i] == zeros(extra)[j]);
                    lemma_zero_constraint(m, u);
                }
            }
        }
    }
    assert(P.relaxed_constraints_hold(pw, pe, u, x) ==> S.relaxed_constraints_hold(w, e, u, x)) by {
        if P.relaxed_constraints_hold(pw, pe, u, x) {
            assert forall|i: int| 0 <= i < S.num_cons implies #[trigger] constraint_holds(
                m,
                S.az(z)[i],
                S.bz(z)[i],
                u,
                S.cz(z)[i],
                e[i],
            ) by {
                assert(constraint_holds(m, P.az(pz)[i], P.bz(pz)[i], u, P.cz(pz)[i], pe[i]));
            }
        }
    }
}

/// A padded shape has numbers of constraints and of variables that are powers of two, and more
/// variables than inputs and outputs, whose number stays. Where the shape was so already, nothing
/// changes; otherwise both numbers become the first power of two that is enough.
pub proof fn law_pad_sizes<E: Engine>(S: R1CSShape<E>, P: R1CSShape<E>)
    requires
        call_ensures(R1CSShape::<E>::pad, (&S,), P),
    ensures
        exists|k: nat| P.num_cons == #[trigger] pow2(k),
        exists|k: nat| P.num_vars == #[trigger] pow2(k),
        P.num_io == S.num_io,
        P.num_io < P.num_vars,
        (exists|k: nat| S.num_cons == #[trigger] pow2(k)) && (exists|k: nat|
            S.num_vars == #[trigger] pow2(k)) && S.num_io < S.num_vars ==> {
            &&& P.num_cons == S.num_cons
            &&& P.num_vars == S.num_vars
            &&& P.kept_digest() == S.kept_digest()
        },
        !((exists|k: nat| S.num_cons == #[trigger] pow2(k)) && (exists|k: nat|
            S.num_vars == #[trigger] pow2(k)) && S.num_io < S.num_vars) ==> {
            &&& P.num_cons == P.num_vars
            &&& P.num_cons >= S.num_cons
            &&& P.num_vars >= S.num_vars
            &&& forall|k: nat| #[trigger]
                pow2(k) >= S.num_cons && pow2(k) >= S.num_vars && pow2(k) > S.num_io ==> pow2(k)
                    >= P.num_vars
            &&& P.kept_digest() is None
        },
        P.A.cols - S.A.cols == P.num_vars - S.num_vars,
        P.B.cols - S.B.cols == P.num_vars - S.num_vars,
        P.C.cols - S.C.cols == P.num_vars - S.num_vars,
{
    lemma_padded_size(S);
    assert forall|k: nat| #[trigger]
        pow2(k) >= S.num_cons && pow2(k) >= S.num_vars && pow2(k) > S.num_io implies pow2(k)
        >= S.padded_size() by {
        assert(is_power_of_two(pow2(k)));
    }
}

/// The sum over a shifted row is the sum over the row, where the vectors agree but for the columns
/// that were put in.
proof fn lemma_moved_row_sum(row: Seq<(nat, nat)>, at: nat, by: nat, z: Seq<nat>, pz: Seq<nat>)
    requires
        forall|k: int| 0 <= k < row.len() ==> (#[trigger] row[k]).0 < z.len(),
        pz.len() == z.len() + by,
        forall|j: int|
            0 <= j < z.len() ==> #[trigger] z[j] == pz[if j < at {
                j
            } else {
                j + by
            }],
    ensures
        row_sum(shifted_row(row, at, by), pz) == row_sum(row, z),
    decreases row.len(),
{
    if row.len() > 0 {
        let rest = row.drop_last();
        assert(row[row.len() - 1].0 < z.len());
        assert forall|k: int| 0 <= k < rest.len() implies (#[trigger] rest[k]).0 < z.len() by {
            assert(rest[k] == row[k]);
        }
        lemma_moved_row_sum(rest, at, by, z, pz);
        let c = row.last().0;
        assert(z[c as int] == pz[shifted_column(c, at, by) as int]);
        assert(shifted_row(row, at, by).drop_last() =~= shifted_row(rest, at, by));
        assert(shifted_row(row, at, by).last() == (shifted_column(c, at, by), row.last().1));
    }
}

/// The product of a matrix that was padded agrees with that of the matrix in its rows, and is 0 in
/// the new ones.
proof fn lemma_moved_product<S: Scalar>(
    rows: Seq<Seq<(nat, nat)>>,
    height: nat,
    padded: Seq<Seq<(nat, nat)>>,
    at: nat,
    by: nat,
    extra: nat,
    z: Seq<S>,
    pz: Seq<S>,
    r: Seq<S>,
    q: Seq<S>,
)
    requires
        entries_within(rows, height, z.len()),
        padded == padded_rows(rows, at, by, extra) || (padded == rows && by == 0 && extra == 0),
        pz.len() == z.len() + by,
        forall|j: int|
            0 <= j < z.len() ==> (#[trigger] z[j]).value() == pz[if j < at {
                j
            } else {
                j + by
            }].value(),
        values(r) == product(S::modulus(), rows, values(z)),
        values(q) == product(S::modulus(), padded, values(pz)),
    ensures
        r.len() == rows.len(),
        q.len() == rows.len() + extra,
        forall|i: int| 0 <= i < r.len() ==> (#[trigger] q[i]).value() == r[i].value(),
        forall|i: int| r.len() <= i < q.len() ==> (#[trigger] q[i]).value() == 0,
{
    let (zs, pzs) = (values(z), values(pz));
    S::lemma_residue(arbitrary());
    assert(values(r).len() == r.len() && values(q).len() == q.len());
    assert forall|j: int| 0 <= j < zs.len() implies #[trigger] zs[j] == pzs[if j < at {
        j
    } else {
        j + by
    }] by {
        assert(zs[j] == z[j].value());
    }
    assert forall|i: int| 0 <= i < r.len() implies (#[trigger] q[i]).value() == r[i].value() by {
        assert forall|k: int| 0 <= k < rows[i].len() implies (#[trigger] rows[i][k]).0
            < zs.len() by {}
        lemma_moved_row_sum(rows[i], at, by, zs, pzs);
        assert(shifted_row(rows[i], at, 0) =~= rows[i]);
        assert(values(r)[i] == r[i].value() && values(q)[i] == q[i].value());
    }
    assert forall|i: int| r.len() <= i < q.len() implies (#[trigger] q[i]).value() == 0 by {
        assert(values(q)[i] == q[i].value());
        assert(padded[i] == Seq::<(nat, nat)>::empty());
        lemma_small_mod(0, S::modulus());
    }
}

/// For every shape, and whatever a vector holds for the new variables, the products of the padded
/// `A`, `B` and `C` with the vector agree with the products of `A`, of `B` and of `C` with the
/// vector without the new variables, and are 0 in every new row. There is a new row for every new
/// constraint where there are new variables, and none where there are not.
pub proof fn law_pad_keeps_each_product<E: Engine>(
    S: R1CSShape<E>,
    P: R1CSShape<E>,
    z: &[E::Scalar],
    pz: &[E::Scalar],
    r: (Vec<E::Scalar>, Vec<E::Scalar>, Vec<E::Scalar>),
    q: (Vec<E::Scalar>, Vec<E::Scalar>, Vec<E::Scalar>),
)
    requires
        S.wf(),
        call_ensures(R1CSShape::<E>::pad, (&S,), P),
        z@.len() == S.num_vars + 1 + S.num_io,
        pz@.len() == P.num_vars + 1 + P.num_io,
        forall|j: int|
            0 <= j < z@.len() ==> (#[trigger] z@[j]).value() == pz@[if j < S.num_vars {
                j
            } else {
                j + P.num_vars - S.num_vars
            }].value(),
        call_ensures(
            R1CSShape::<E>::multiply_vec,
            (&S, z),
            Ok::<(Vec<E::Scalar>, Vec<E::Scalar>, Vec<E::Scalar>), NovaError>(r),
        ),
        call_ensures(
            R1CSShape::<E>::multiply_vec,
            (&P, pz),
            Ok::<(Vec<E::Scalar>, Vec<E::Scalar>, Vec<E::Scalar>), NovaError>(q),
        ),
    ensures
        P.num_vars == S.num_vars ==> {
            &&& q.0@.len() == r.0@.len()
            &&& q.1@.len() == r.1@.len()
            &&& q.2@.len() == r.2@.len()
        },
        P.num_vars != S.num_vars ==> {
            &&& q.0@.len() == r.0@.len() + P.num_cons - S.num_cons
            &&& q.1@.len() == r.1@.len() + P.num_cons - S.num_cons
            &&& q.2@.len() == r.2@.len() + P.num_cons - S.num_cons
        },
        forall|i: int| 0 <= i < r.0@.len() ==> (#[trigger] q.0@[i]).value() == r.0@[i].value(),
        forall|i: int| 0 <= i < r.1@.len() ==> (#[trigger] q.1@[i]).value() == r.1@[i].value(),
        forall|i: int| 0 <= i < r.2@.len() ==> (#[trigger] q.2@[i]).value() == r.2@[i].value(),
        forall|i: int| r.0@.len() <= i < q.0@.len() ==> (#[trigger] q.0@[i]).value() == 0,
        forall|i: int| r.1@.len() <= i < q.1@.len() ==> (#[trigger] q.1@[i]).value() == 0,
        forall|i: int| r.2@.len() <= i < q.2@.len() ==> (#[trigger] q.2@[i]).value() == 0,
{
    lemma_padded_size(S);
    let (at, cons) = (S.num_vars as nat, S.num_cons as nat);
    let by = (P.num_vars - S.num_vars) as nat;
    let extra = if by == 0 {
        0
    } else {
        (P.num_cons - S.num_cons) as nat
    };
    lemma_moved_product(S.A.rows(), cons, P.A.rows(), at, by, extra, z@, pz@, r.0@, q.0@);
    lemma_moved_product(S.B.rows(), cons, P.B.rows(), at, by, extra, z@, pz@, r.1@, q.1@);
    lemma_moved_product(S.C.rows(), cons, P.C.rows(), at, by, extra, z@, pz@, r.2@, q.2@);
}

/// A padded witness has the variables and the errors of the witness, and behind them zeros, one for
/// every further variable and constraint of the shape.
pub proof fn law_padded_witness<E: Engine>(
    W: RelaxedR1CSWitness<E>,
    S: R1CSShape<E>,
    r: RelaxedR1CSWitness<E>,
)
    requires
        W.W@.len() <= S.num_vars,
        W.E@.len() <= S.num_cons,
        call_ensures(RelaxedR1CSWitness::<E>::pad, (&W, &S), r),
    ensures
        r.W@.len() == S.num_vars,
        r.E@.len() == S.num_cons,
        forall|i: int| 0 <= i < W.W@.len() ==> (#[trigger] r.W@[i]).value() == W.W@[i].value(),
        forall|i: int| 0 <= i < W.E@.len() ==> (#[trigger] r.E@[i]).value() == W.E@[i].value(),
        forall|i: int| W.W@.len() <= i < S.num_vars ==> (#[trigger] r.W@[i]).value() == 0,
        forall|i: int| W.E@.len() <= i < S.num_cons ==> (#[trigger] r.E@[i]).value() == 0,
{
    lemma_padded_values(W.W@, r.W@, S.num_vars as nat);
    lemma_padded_values(W.E@, r.E@, S.num_cons as nat);
}

proof fn lemma_padded_values<S: Scalar>(a: Seq<S>, b: Seq<S>, n: nat)
    requires
        a.len() <= n,
        values(b) == values(a) + zeros((n - a.len()) as nat),
    ensures
        b.len() == n,
        forall|i: int| 0 <= i < a.len() ==> (#[trigger] b[i]).value() == a[i].value(),
        forall|i: int| a.len() <= i < n ==> (#[trigger] b[i]).value() == 0,
{
    assert(values(b).len() == b.len());
    assert forall|i: int| 0 <= i < a.len() implies (#[trigger] b[i]).value() == a[i].value() by {
        assert(values(b)[i] == b[i].value() && values(a)[i] == a[i].value());
    }
    assert forall|i: int| a.len() <= i < n implies (#[trigger] b[i]).value() == 0 by {
        assert(values(b)[i] == b[i].value());
        assert(values(b)[i] == zeros((n - a.len()) as nat)[i - a.len()]);
    }
}

/// The check for a regular shape succeeds where and only where the numbers of constraints and of
/// variables are 2 to some exponents and there are fewer inputs and outputs than variables.
pub proof fn law_regular_check<E: Engine>(S: R1CSShape<E>, r: bool)
    requires
        call_ensures(R1CSShape::<E>::is_regular_shape, (&S,), r),
    ensures
        r <==> (exists|k: nat| S.num_cons == #[trigger] pow2(k)) && (exists|k: nat|
            S.num_vars == #[trigger] pow2(k)) && S.num_io < S.num_vars,
{
}

} // verus!
