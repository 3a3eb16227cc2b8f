//! Folding keeps satisfaction, and so do the ways into the relaxed form.
use super::cross_term::cross_item;
use super::instance::{R1CSInstance, RelaxedR1CSInstance};
use super::linearity::{law_product_linear, law_product_of_zeros, lemma_combine_assignments};
use super::satisfiability::constraint_holds;
use super::shape::R1CSShape;
use super::sparse::assignment;
use super::witness::{R1CSWitness, RelaxedR1CSWitness};
use crate::field::{
    are_residues, combine, lemma_congruent_add, lemma_congruent_mul, lemma_residue_congruent,
    lemma_values_are_residues, residue, values, zeros, Scalar,
};
use crate::traits::{Commitment, CommitmentEngineTrait, CommitmentKey, CommitmentTrait, Engine, CE};
use vstd::prelude::*;

verus! {

/// With a key, the commitment to `v1 + r * v2` is the sum of the commitment to `v1` and `r` times
/// the commitment to `v2`, as far as the key reaches.
pub open spec fn commits_linearly<E: Engine>(ck: CommitmentKey<E>) -> bool {
    forall|v1: Seq<nat>, r: nat, v2: Seq<nat>|
        v1.len() == v2.len() && v1.len() <= CE::<E>::capacity(ck) && r < E::Scalar::modulus()
            && are_residues(E::Scalar::modulus(), v1) && are_residues(E::Scalar::modulus(), v2)
            ==> CE::<E>::committed(
            ck,
            #[trigger] combine(E::Scalar::modulus(), v1, r, v2),
        ) == Commitment::<E>::sum(
            CE::<E>::committed(ck, v1),
            Commitment::<E>::scaled(CE::<E>::committed(ck, v2), r),
        )
}

/// With a key, the commitment to zeros is the neutral element, as far as the key reaches.
pub open spec fn commits_zeros_to_neutral<E: Engine>(ck: CommitmentKey<E>) -> bool {
    forall|n: nat|
        n <= CE::<E>::capacity(ck) ==> CE::<E>::committed(ck, #[trigger] zeros(n)) == Commitment::<
            E,
        >::neutral()
}

/// The product of two folded numbers, in powers of `r`.
proof fn lemma_expand_product(a1: int, a2: int, b1: int, b2: int, r: int)
    ensures
        (a1 + r * a2) * (b1 + r * b2) == a1 * b1 + r * (a1 * b2 + a2 * b1) + (r * r) * (a2 * b2),
{
    let (p, q) = (r * a2, r * b2);
    assert((a1 + p) * (b1 + q) == a1 * b1 + a1 * q + p * b1 + p * q) by (nonlinear_arith);
    assert(a1 * (r * b2) == r * (a1 * b2)) by (nonlinear_arith);
    assert((r * a2) * b1 == r * (a2 * b1)) by (nonlinear_arith);
    assert((r * a2) * (r * b2) == (r * r) * (a2 * b2)) by (nonlinear_arith);
    let (x, y) = (a1 * b2, a2 * b1);
    assert(r * (x + y) == r * x + r * y) by (nonlinear_arith);
}

/// A constraint that holds of both assignments holds of the folded one, for any `r`.
proof fn lemma_fold_constraint(
    m: nat,
    a1: nat,
    b1: nat,
    c1: nat,
    u1: nat,
    e1: nat,
    a2: nat,
    b2: nat,
    c2: nat,
    r: nat,
)
    requires
        m > 0,
        constraint_holds(m, a1, b1, u1, c1, e1),
        constraint_holds(m, a2, b2, 1, c2, 0),
    ensures
        ({
            let t = cross_item(m, a1, b1, c1, u1, a2, b2, c2);
            constraint_holds(
                m,
                residue(m, (a1 + r * a2) as int),
                residue(m, (b1 + r * b2) as int),
                residue(m, (u1 + r) as int),
                residue(m, (c1 + r * c2) as int),
                residue(m, (e1 + r * t) as int),
            )
        }),
{
    let t = cross_item(m, a1, b1, c1, u1, a2, b2, c2);
    let exact = a1 * b2 + a2 * b1 - u1 * c2 - c1;
    let (a, b) = ((a1 + r * a2) as int, (b1 + r * b2) as int);
    let (c, u, e) = ((c1 + r * c2) as int, (u1 + r) as int, (e1 + r * t) as int);
    lemma_residue_congruent(m, a);
    lemma_residue_congruent(m, b);
    lemma_residue_congruent(m, c);
    lemma_residue_congruent(m, u);
    lemma_residue_congruent(m, e);
    lemma_residue_congruent(m, exact);
    let (ra, rb) = (residue(m, a) as int, residue(m, b) as int);
    let (rc, ru, re) = (residue(m, c) as int, residue(m, u) as int, residue(m, e) as int);
    lemma_congruent_mul(m, ra, a, rb, b);
    lemma_congruent_mul(m, ru, u, rc, c);
    lemma_congruent_add(m, ru * rc, u * c, re, e);
    // the cross-term may stand unreduced
    lemma_congruent_mul(m, r as int, r as int, t as int, exact);
    lemma_congruent_add(m, e1 as int, e1 as int, (r * t) as int, r * exact);
    lemma_congruent_add(m, u * c, u * c, e, e1 + r * exact);
    // the squares of `r` come from the constraint of the second assignment
    let p1 = (a1 * b1) as int;
    let q1 = (u1 * c1 + e1) as int;
    let p2 = (a2 * b2) as int;
    let q2 = (1 * c2 + 0) as int;
    lemma_congruent_mul(m, (r * r) as int, (r * r) as int, p2, q2);
    let mixed = r * (a1 * b2 + a2 * b1);
    lemma_congruent_add(m, p1, q1, mixed as int, mixed as int);
    lemma_congruent_add(m, p1 + mixed, q1 + mixed, (r * r) * p2, (r * r) * q2);
    lemma_expand_product(a1 as int, a2 as int, b1 as int, b2 as int, r as int);
    lemma_expand_product(u1 as int, 1, c1 as int, c2 as int, r as int);
    let s = a1 * b2 + a2 * b1;
    let d = u1 * c2 + c1;
    assert(r * (s - d) == r * s - r * d) by (nonlinear_arith);
    assert(e1 + r * exact == e1 + r * s - r * d);
}

/// Folding an R1CS witness that satisfies its instance into a relaxed one that satisfies its
/// instance, with the cross-term of the two, gives a relaxed witness that satisfies the folded
/// instance, whatever the scalar `r` is, where the key commits linearly.
pub proof fn law_folding_keeps_satisfaction<E: Engine>(
    S: R1CSShape<E>,
    ck: CommitmentKey<E>,
    U1: RelaxedR1CSInstance<E>,
    W1: RelaxedR1CSWitness<E>,
    U2: R1CSInstance<E>,
    W2: R1CSWitness<E>,
    T: Seq<E::Scalar>,
    comm_T: Commitment<E>,
    r: E::Scalar,
    U: RelaxedR1CSInstance<E>,
    W: RelaxedR1CSWitness<E>,
)
    requires
        S.wf(),
        S.has_all_rows(),
        S.fits(W1.W@, U1.X@),
        S.fits(W2.W@, U2.X@),
        W1.E@.len() == S.num_cons,
        S.num_vars <= CE::<E>::capacity(ck),
        S.num_cons <= CE::<E>::capacity(ck),
        commits_linearly::<E>(ck),
        S.relaxed_satisfied(ck, U1, W1),
        S.satisfied(ck, U2, W2),
        values(T) == S.cross_term(
            S.common_rows(),
            values(W1.W@),
            U1.u.value(),
            values(U1.X@),
            values(W2.W@),
            values(U2.X@),
        ),
        comm_T.element() == CE::<E>::committed(ck, values(T)),
        U1.folds_to(U2, comm_T, r, U),
        W1.folds_to(W2, T, r, W),
    ensures
        S.relaxed_satisfied(ck, U, W),
        S.fits(W.W@, U.X@),
        W.E@.len() == S.num_cons,
{
    let m = E::Scalar::modulus();
    E::Scalar::lemma_residue(r);
    let (w1, x1, u1, e1) = (values(W1.W@), values(U1.X@), U1.u.value(), values(W1.E@));
    let (w2, x2) = (values(W2.W@), values(U2.X@));
    let t = values(T);
    let (w, x, u, e) = (values(W.W@), values(U.X@), U.u.value(), values(W.E@));
    let (z1, z2, z) = (assignment(w1, u1, x1), assignment(w2, 1, x2), assignment(w, u, x));
    lemma_combine_assignments(m, w1, u1, x1, r.value(), w2, 1, x2);
    assert(z == combine(m, z1, r.value(), z2));
    law_product_linear(m, S.A.rows(), S.num_cons as nat, z1, r.value(), z2);
    law_product_linear(m, S.B.rows(), S.num_cons as nat, z1, r.value(), z2);
    law_product_linear(m, S.C.rows(), S.num_cons as nat, z1, r.value(), z2);
    assert(w.len() == S.num_vars && x.len() == S.num_io && e.len() == S.num_cons);
    assert forall|i: int| 0 <= i < S.num_cons implies #[trigger] constraint_holds(
        m,
        S.az(z)[i],
        S.bz(z)[i],
        u,
        S.cz(z)[i],
        e[i],
    ) by {
        assert(constraint_holds(m, S.az(z1)[i], S.bz(z1)[i], u1, S.cz(z1)[i], e1[i]));
        assert(constraint_holds(m, S.az(z2)[i], S.bz(z2)[i], 1, S.cz(z2)[i], 0));
        lemma_fold_constraint(
            m,
            S.az(z1)[i],
            S.bz(z1)[i],
            S.cz(z1)[i],
            u1,
            e1[i],
            S.az(z2)[i],
            S.bz(z2)[i],
            S.cz(z2)[i],
            r.value(),
        );
    }
    lemma_values_are_residues(W1.W@);
    lemma_values_are_residues(W2.W@);
    lemma_values_are_residues(W1.E@);
    lemma_values_are_residues(T);
    assert(CE::<E>::committed(ck, combine(m, w1, r.value(), w2)) == Commitment::<E>::sum(
        CE::<E>::committed(ck, w1),
        Commitment::<E>::scaled(CE::<E>::committed(ck, w2), r.value()),
    ));
    assert(CE::<E>::committed(ck, combine(m, e1, r.value(), t)) == Commitment::<E>::sum(
        CE::<E>::committed(ck, e1),
        Commitment::<E>::scaled(CE::<E>::committed(ck, t), r.value()),
    ));
}

/// A relaxed instance and witness made from an R1CS instance and witness satisfy the relaxed
/// constraints where and only where the R1CS ones satisfy the constraints, where the key commits
/// to zeros by the neutral element.
pub proof fn law_relaxing_keeps_satisfaction<E: Engine>(
    S: R1CSShape<E>,
    ck: CommitmentKey<E>,
    U: R1CSInstance<E>,
    W: R1CSWitness<E>,
    RU: RelaxedR1CSInstance<E>,
    RW: RelaxedR1CSWitness<E>,
)
    requires
        S.num_cons <= CE::<E>::capacity(ck),
        commits_zeros_to_neutral::<E>(ck),
        RU.relaxes(U.comm_W, U.X@),
        RW.W == W.W,
        values(RW.E@) == zeros(S.num_cons as nat),
    ensures
        S.relaxed_satisfied(ck, RU, RW) <==> S.satisfied(ck, U, W),
{
    let z = assignment(values(W.W@), 1, values(U.X@));
    let m = E::Scalar::modulus();
    assert(CE::<E>::committed(ck, zeros(S.num_cons as nat)) == Commitment::<E>::neutral());
    if S.relaxed_satisfied(ck, RU, RW) {
        assert forall|i: int| 0 <= i < S.num_cons implies #[trigger] constraint_holds(
            m,
            S.az(z)[i],
            S.bz(z)[i],
            1,
            S.cz(z)[i],
            0,
        ) by {
            assert(constraint_holds(m, S.az(z)[i], S.bz(z)[i], 1, S.cz(z)[i], values(RW.E@)[i]));
        }
    }
    if S.satisfied(ck, U, W) {
        assert forall|i: int| 0 <= i < S.num_cons implies #[trigger] constraint_holds(
            m,
            S.az(z)[i],
            S.bz(z)[i],
            1,
            S.cz(z)[i],
            values(RW.E@)[i],
        ) by {
            assert(constraint_holds(m, S.az(z)[i], S.bz(z)[i], 1, S.cz(z)[i], 0));
        }
    }
}

/// The witness of zeros satisfies the instance of zeros, where the key commits to zeros by the
/// neutral element.
pub proof fn law_default_is_satisfied<E: Engine>(
    S: R1CSShape<E>,
    ck: CommitmentKey<E>,
    U: RelaxedR1CSInstance<E>,
    W: RelaxedR1CSWitness<E>,
)
    requires
        S.wf(),
        S.has_all_rows(),
        S.num_vars <= CE::<E>::capacity(ck),
        S.num_cons <= CE::<E>::capacity(ck),
        commits_zeros_to_neutral::<E>(ck),
        U.is_default(S),
        values(W.W@) == zeros(S.num_vars as nat),
        values(W.E@) == zeros(S.num_cons as nat),
    ensures
        S.relaxed_satisfied(ck, U, W),
{
    let z = assignment(values(W.W@), U.u.value(), values(U.X@));
    let m = E::Scalar::modulus();
    E::Scalar::lemma_residue(U.u);
    assert(z =~= zeros(S.width()));
    law_product_of_zeros(m, S.A.rows(), S.num_cons as nat, S.width());
    law_product_of_zeros(m, S.B.rows(), S.num_cons as nat, S.width());
    law_product_of_zeros(m, S.C.rows(), S.num_cons as nat, S.width());
    assert(CE::<E>::committed(ck, zeros(S.num_cons as nat)) == Commitment::<E>::neutral());
    assert(CE::<E>::committed(ck, zeros(S.num_vars as nat)) == Commitment::<E>::neutral());
}

/// Folding an instance in place and folding it into a new one give the same commitments, public
/// inputs and outputs, and scalar.
pub proof fn law_instance_folds_agree<E: Engine>(
    U1: RelaxedR1CSInstance<E>,
    U2: R1CSInstance<E>,
    comm_T: Commitment<E>,
    r: E::Scalar,
    new: RelaxedR1CSInstance<E>,
    in_place: RelaxedR1CSInstance<E>,
)
    requires
        U1.folds_to(U2, comm_T, r, new),
        U1.folds_to(U2, comm_T, r, in_place),
    ensures
        new.comm_W.element() == in_place.comm_W.element(),
        new.comm_E.element() == in_place.comm_E.element(),
        values(new.X@) == values(in_place.X@),
        new.u.value() == in_place.u.value(),
{
}

/// Folding a witness in place and folding it into a new one give the same variables and errors.
pub proof fn law_witness_folds_agree<E: Engine>(
    W1: RelaxedR1CSWitness<E>,
    W2: R1CSWitness<E>,
    T: Seq<E::Scalar>,
    r: E::Scalar,
    new: RelaxedR1CSWitness<E>,
    in_place: RelaxedR1CSWitness<E>,
)
    requires
        W1.folds_to(W2, T, r, new),
        W1.folds_to(W2, T, r, in_place),
    ensures
        values(new.W@) == values(in_place.W@),
        values(new.E@) == values(in_place.E@),
{
}

/// The cross-term of `commit_T` and that of `commit_T_into` are the same wherever the latter can
/// be computed.
pub proof fn law_cross_terms_agree<E: Engine>(
    S: R1CSShape<E>,
    W1: Seq<nat>,
    u1: nat,
    X1: Seq<nat>,
    W2: Seq<nat>,
    X2: Seq<nat>,
)
    requires
        S.A.num_rows() <= S.C.num_rows(),
    ensures
        S.cross_term(S.common_rows(), W1, u1, X1, W2, X2) == S.cross_term(
            S.A.num_rows(),
            W1,
            u1,
            X1,
            W2,
            X2,
        ),
{
}

} // verus!
