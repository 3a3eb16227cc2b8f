//! How the checks, the cross-term and the folds relate to the products and the commitments.
use super::folding::{commits_linearly, law_folding_keeps_satisfaction};
use super::instance::{R1CSInstance, RelaxedR1CSInstance};
use super::product_laws::lemma_equal_values;
use super::satisfiability::constraint_holds;
use super::shape::{R1CSResult, R1CSShape};
use super::sparse::assignment;
use super::witness::{R1CSWitness, RelaxedR1CSWitness};
use crate::errors::NovaError;
use crate::field::{values, Scalar};
use crate::traits::{Commitment, CommitmentEngineTrait, CommitmentKey, CommitmentTrait, Engine, CE};
use vstd::arithmetic::div_mod::*;
use vstd::prelude::*;

verus! {

/// A witness satisfies an instance where and only where, with the products that the shape gives for
/// the variables, 1 and the public inputs and outputs, `Az * Bz - Cz` is 0 modulo the order in
/// every row, and the instance has the commitment that the witness gives. Otherwise the answer is
/// `UnSat`.
pub proof fn law_check_decides_satisfaction<E: Engine>(
    S: R1CSShape<E>,
    ck: CommitmentKey<E>,
    U: R1CSInstance<E>,
    W: R1CSWitness<E>,
    w: &[E::Scalar],
    one: E::Scalar,
    x: &[E::Scalar],
    p: (Vec<E::Scalar>, Vec<E::Scalar>, Vec<E::Scalar>),
    c: Commitment<E>,
    r: Result<(), NovaError>,
)
    requires
        w@ == W.W@,
        one.value() == 1,
        x@ == U.X@,
        p.0@.len() == S.num_cons,
        p.1@.len() == S.num_cons,
        p.2@.len() == S.num_cons,
        call_ensures(
            R1CSShape::<E>::multiply_witness,
            (&S, w, &one, x),
            Ok::<(Vec<E::Scalar>, Vec<E::Scalar>, Vec<E::Scalar>), NovaError>(p),
        ),
        call_ensures(R1CSWitness::<E>::commit, (&W, &ck), c),
        call_ensures(R1CSShape::<E>::is_sat, (&S, &ck, &U, &W), r),
    ensures
        r is Ok <==> {
            &&& forall|i: int|
                0 <= i < S.num_cons ==> (#[trigger] p.0@[i].value() * p.1@[i].value()
                    - p.2@[i].value()) % (E::Scalar::modulus() as int) == 0
            &&& U.comm_W.element() == c.element()
        },
        r is Err ==> r == Err::<(), _>(NovaError::UnSat),
{
    let m = E::Scalar::modulus();
    E::Scalar::lemma_residue(one);
    let z = assignment(values(w@), 1, values(x@));
    assert forall|i: int| 0 <= i < S.num_cons implies (constraint_holds(
        m,
        S.az(z)[i],
        S.bz(z)[i],
        1,
        S.cz(z)[i],
        0,
    ) <==> (#[trigger] p.0@[i].value() * p.1@[i].value() - p.2@[i].value()) % (m as int)
        == 0) by {
        assert(values(p.0@)[i] == p.0@[i].value());
        assert(values(p.1@)[i] == p.1@[i].value());
        assert(values(p.2@)[i] == p.2@[i].value());
        lemma_mod_equivalence(
            (p.0@[i].value() * p.1@[i].value()) as int,
            p.2@[i].value() as int,
            m as int,
        );
    }
    if r is Ok {
        assert forall|i: int| 0 <= i < S.num_cons implies (#[trigger] p.0@[i].value()
            * p.1@[i].value() - p.2@[i].value()) % (m as int) == 0 by {
            assert(constraint_holds(m, S.az(z)[i], S.bz(z)[i], 1, S.cz(z)[i], 0));
        }
    } else if U.comm_W.element() == c.element() {
        let i = choose|i: int|
            0 <= i < S.num_cons && !#[trigger] constraint_holds(
                m,
                S.az(z)[i],
                S.bz(z)[i],
                1,
                S.cz(z)[i],
                0,
            );
        assert((p.0@[i].value() * p.1@[i].value() - p.2@[i].value()) % (m as int) != 0);
    }
}

/// A witness satisfies a relaxed instance where and only where, with the products that the shape
/// gives for the variables, the scalar and the public inputs and outputs, `Az * Bz - u * Cz - E` is
/// 0 modulo the order in every row, and the instance has both commitments that the witness gives.
/// Otherwise the answer is `UnSat`.
pub proof fn law_relaxed_check_decides_satisfaction<E: Engine>(
    S: R1CSShape<E>,
    ck: CommitmentKey<E>,
    U: RelaxedR1CSInstance<E>,
    W: RelaxedR1CSWitness<E>,
    w: &[E::Scalar],
    x: &[E::Scalar],
    p: (Vec<E::Scalar>, Vec<E::Scalar>, Vec<E::Scalar>),
    c: (Commitment<E>, Commitment<E>),
    r: Result<(), NovaError>,
)
    requires
        w@ == W.W@,
        x@ == U.X@,
        p.0@.len() == S.num_cons,
        p.1@.len() == S.num_cons,
        p.2@.len() == S.num_cons,
        W.E@.len() == S.num_cons,
        call_ensures(
            R1CSShape::<E>::multiply_witness,
            (&S, w, &U.u, x),
            Ok::<(Vec<E::Scalar>, Vec<E::Scalar>, Vec<E::Scalar>), NovaError>(p),
        ),
        call_ensures(RelaxedR1CSWitness::<E>::commit, (&W, &ck), c),
        call_ensures(R1CSShape::<E>::is_sat_relaxed, (&S, &ck, &U, &W), r),
    ensures
        r is Ok <==> {
            &&& forall|i: int|
                0 <= i < S.num_cons ==> (#[trigger] p.0@[i].value() * p.1@[i].value()
                    - U.u.value() * p.2@[i].value() - W.E@[i].value()) % (
                E::Scalar::modulus() as int) == 0
            &&& U.comm_W.element() == c.0.element()
            &&& U.comm_E.element() == c.1.element()
        },
        r is Err ==> r == Err::<(), _>(NovaError::UnSat),
{
    let m = E::Scalar::modulus();
    E::Scalar::lemma_residue(U.u);
    let u = U.u.value();
    let e = values(W.E@);
    let z = assignment(values(w@), u, values(x@));
    assert forall|i: int| 0 <= i < S.num_cons implies (constraint_holds(
        m,
        S.az(z)[i],
        S.bz(z)[i],
        u,
        S.cz(z)[i],
        e[i],
    ) <==> (#[trigger] p.0@[i].value() * p.1@[i].value() - u * p.2@[i].value()
        - W.E@[i].value()) % (m as int) == 0) by {
        assert(values(p.0@)[i] == p.0@[i].value());
        assert(values(p.1@)[i] == p.1@[i].value());
        assert(values(p.2@)[i] == p.2@[i].value());
        assert(e[i] == W.E@[i].value());
        lemma_mod_equivalence(
            (p.0@[i].value() * p.1@[i].value()) as int,
            (u * p.2@[i].value() + W.E@[i].value()) as int,
            m as int,
        );
    }
    if r is Ok {
        assert forall|i: int| 0 <= i < S.num_cons implies (#[trigger] p.0@[i].value()
            * p.1@[i].value() - u * p.2@[i].value() - W.E@[i].value()) % (m as int) == 0 by {
            assert(constraint_holds(m, S.az(z)[i], S.bz(z)[i], u, S.cz(z)[i], e[i]));
        }
    } else if U.comm_W.element() == c.0.element() && U.comm_E.element() == c.1.element() {
        let i = choose|i: int|
            0 <= i < S.num_cons && !#[trigger] constraint_holds(
                m,
                S.az(z)[i],
                S.bz(z)[i],
                u,
                S.cz(z)[i],
                e[i],
            );
        assert((p.0@[i].value() * p.1@[i].value() - u * p.2@[i].value() - W.E@[i].value()) % (
        m as int) != 0);
    }
}

/// The commitment that a witness gives is that of the commitment scheme to its variables.
pub proof fn law_witness_commits_to_its_variables<E: Engine>(
    W: R1CSWitness<E>,
    ck: CommitmentKey<E>,
    v: &[E::Scalar],
    c: Commitment<E>,
    d: Commitment<E>,
)
    requires
        v@ == W.W@,
        call_ensures(R1CSWitness::<E>::commit, (&W, &ck), c),
        call_ensures(
            <CE<E> as CommitmentEngineTrait<E::Scalar, E::RO>>::commit,
            (&ck, v),
            d,
        ),
    ensures
        c.element() == d.element(),
{
}

/// The commitments that a relaxed witness gives are those of the commitment scheme to its variables
/// and to its errors, in this order.
pub proof fn law_relaxed_witness_commits_to_its_parts<E: Engine>(
    W: RelaxedR1CSWitness<E>,
    ck: CommitmentKey<E>,
    v: &[E::Scalar],
    e: &[E::Scalar],
    c: (Commitment<E>, Commitment<E>),
    d: Commitment<E>,
    f: Commitment<E>,
)
    requires
        v@ == W.W@,
        e@ == W.E@,
        call_ensures(RelaxedR1CSWitness::<E>::commit, (&W, &ck), c),
        call_ensures(
            <CE<E> as CommitmentEngineTrait<E::Scalar, E::RO>>::commit,
            (&ck, v),
            d,
        ),
        call_ensures(
            <CE<E> as CommitmentEngineTrait<E::Scalar, E::RO>>::commit,
            (&ck, e),
            f,
        ),
    ensures
        c.0.element() == d.element(),
        c.1.element() == f.element(),
{
}

/// Each item of the cross-term is `a1 * b2 + a2 * b1 - u1 * c2 - c1` modulo the order, with the
/// items of the products that the shape gives for the relaxed pair and for the other one with 1 as
/// its scalar. There are as many items as both the products with `A` and those with `C` have. With
/// it comes the commitment to it. Where the lengths do not fit, the answer is an error.
pub proof fn law_cross_term_from_products<E: Engine>(
    S: R1CSShape<E>,
    ck: CommitmentKey<E>,
    U1: RelaxedR1CSInstance<E>,
    W1: RelaxedR1CSWitness<E>,
    U2: R1CSInstance<E>,
    W2: R1CSWitness<E>,
    r: Result<(Vec<E::Scalar>, Commitment<E>), NovaError>,
    one: E::Scalar,
    w1: &[E::Scalar],
    x1: &[E::Scalar],
    w2: &[E::Scalar],
    x2: &[E::Scalar],
    p: Result<(Vec<E::Scalar>, Vec<E::Scalar>, Vec<E::Scalar>), NovaError>,
    q: Result<(Vec<E::Scalar>, Vec<E::Scalar>, Vec<E::Scalar>), NovaError>,
)
    requires
        S.wf(),
        S.A.indptr@.len() <= S.B.indptr@.len(),
        one.value() == 1,
        w1@ == W1.W@,
        x1@ == U1.X@,
        w2@ == W2.W@,
        x2@ == U2.X@,
        call_ensures(R1CSShape::<E>::multiply_witness, (&S, w1, &U1.u, x1), p),
        call_ensures(R1CSShape::<E>::multiply_witness, (&S, w2, &one, x2), q),
        call_ensures(R1CSShape::<E>::commit_T, (&S, &ck, &U1, &W1, &U2, &W2), r),
    ensures
        r is Ok <==> p is Ok && q is Ok,
        r is Err ==> r == Err::<(Vec<E::Scalar>, Commitment<E>), _>(
            NovaError::InvalidWitnessLength,
        ),
        r is Ok ==> {
            let (T, comm_T) = r->Ok_0;
            let (p, q) = (p->Ok_0, q->Ok_0);
            &&& T@.len() == p.0@.len() || T@.len() == p.2@.len()
            &&& T@.len() <= p.0@.len()
            &&& T@.len() <= p.2@.len()
            &&& forall|i: int|
                0 <= i < T@.len() ==> (#[trigger] T@[i]).value() == (p.0@[i].value()
                    * q.1@[i].value() + q.0@[i].value() * p.1@[i].value() - U1.u.value()
                    * q.2@[i].value() - p.2@[i].value()) % (E::Scalar::modulus() as int)
            &&& comm_T.element() == CE::<E>::committed(
                ck,
                Seq::new(T@.len(), |i: int| T@[i].value()),
            )
        },
{
    if r is Ok {
        let (T, comm_T) = r->Ok_0;
        let (p, q) = (p->Ok_0, q->Ok_0);
        E::Scalar::lemma_residue(one);
        assert(values(T@) =~= Seq::new(T@.len(), |i: int| T@[i].value()));
        assert(values(T@).len() == T@.len());
        assert(values(p.0@).len() == p.0@.len() && values(p.2@).len() == p.2@.len());
        assert(values(p.1@).len() == p.1@.len());
        assert(values(q.0@).len() == q.0@.len() && values(q.2@).len() == q.2@.len());
        assert(values(q.1@).len() == q.1@.len());
        let z1 = assignment(values(w1@), U1.u.value(), values(x1@));
        let z2 = assignment(values(w2@), 1, values(x2@));
        assert forall|i: int| 0 <= i < T@.len() implies (#[trigger] T@[i]).value() == (
        p.0@[i].value() * q.1@[i].value() + q.0@[i].value() * p.1@[i].value() - U1.u.value()
            * q.2@[i].value() - p.2@[i].value()) % (E::Scalar::modulus() as int) by {
            assert(values(T@)[i] == T@[i].value());
            assert(S.az(z1)[i] == p.0@[i].value());
            assert(S.cz(z1)[i] == p.2@[i].value());
            assert(S.az(z2)[i] == q.0@[i].value());
            assert(S.cz(z2)[i] == q.2@[i].value());
            assert(S.bz(z1)[i] == p.1@[i].value());
            assert(S.bz(z2)[i] == q.1@[i].value());
        }
    }
}

/// The buffered cross-term has the same items and the same commitment as the one that is returned,
/// and the buffers for the products hold what the shape gives for the two pairs. Where the lengths
/// do not fit, the cross-term and the buffers from the first misfit on stay as they were.
pub proof fn law_buffered_cross_term_agrees<E: Engine>(
    S: R1CSShape<E>,
    ck: CommitmentKey<E>,
    U1: RelaxedR1CSInstance<E>,
    W1: RelaxedR1CSWitness<E>,
    U2: R1CSInstance<E>,
    W2: R1CSWitness<E>,
    T: &mut Vec<E::Scalar>,
    ABC_Z_1: &mut R1CSResult<E>,
    ABC_Z_2: &mut R1CSResult<E>,
    c: Result<Commitment<E>, NovaError>,
    r: Result<(Vec<E::Scalar>, Commitment<E>), NovaError>,
    one: E::Scalar,
    w1: &[E::Scalar],
    x1: &[E::Scalar],
    w2: &[E::Scalar],
    x2: &[E::Scalar],
    p: Result<(Vec<E::Scalar>, Vec<E::Scalar>, Vec<E::Scalar>), NovaError>,
    q: Result<(Vec<E::Scalar>, Vec<E::Scalar>, Vec<E::Scalar>), NovaError>,
)
    requires
        S.wf(),
        S.A.indptr@.len() <= S.C.indptr@.len(),
        one.value() == 1,
        w1@ == W1.W@,
        x1@ == U1.X@,
        w2@ == W2.W@,
        x2@ == U2.X@,
        call_ensures(R1CSShape::<E>::multiply_witness, (&S, w1, &U1.u, x1), p),
        call_ensures(R1CSShape::<E>::multiply_witness, (&S, w2, &one, x2), q),
        call_ensures(R1CSShape::<E>::commit_T, (&S, &ck, &U1, &W1, &U2, &W2), r),
        call_ensures(
            R1CSShape::<E>::commit_T_into,
            (&S, &ck, &U1, &W1, &U2, &W2, T, ABC_Z_1, ABC_Z_2),
            c,
        ),
    ensures
        c is Ok <==> r is Ok,
        c is Err ==> {
            &&& c == Err::<Commitment<E>, _>(NovaError::InvalidWitnessLength)
            &&& *final(T) == *old(T)
            &&& *final(ABC_Z_2) == *old(ABC_Z_2)
        },
        c is Ok ==> {
            let (t, d) = r->Ok_0;
            &&& final(T)@.len() == t@.len()
            &&& forall|i: int|
                0 <= i < t@.len() ==> (#[trigger] final(T)@[i]).value() == t@[i].value()
            &&& c->Ok_0.element() == d.element()
        },
        p is Err ==> *final(ABC_Z_1) == *old(ABC_Z_1),
        p is Ok ==> {
            let t = p->Ok_0;
            &&& final(ABC_Z_1).AZ@.len() == t.0@.len()
            &&& final(ABC_Z_1).BZ@.len() == t.1@.len()
            &&& final(ABC_Z_1).CZ@.len() == t.2@.len()
            &&& forall|i: int|
                0 <= i < t.0@.len() ==> (#[trigger] final(ABC_Z_1).AZ@[i]).value()
                    == t.0@[i].value()
            &&& forall|i: int|
                0 <= i < t.1@.len() ==> (#[trigger] final(ABC_Z_1).BZ@[i]).value()
                    == t.1@[i].value()
            &&& forall|i: int|
                0 <= i < t.2@.len() ==> (#[trigger] final(ABC_Z_1).CZ@[i]).value()
                    == t.2@[i].value()
        },
        c is Ok ==> {
            let t = q->Ok_0;
            &&& final(ABC_Z_2).AZ@.len() == t.0@.len()
            &&& final(ABC_Z_2).BZ@.len() == t.1@.len()
            &&& final(ABC_Z_2).CZ@.len() == t.2@.len()
            &&& forall|i: int|
                0 <= i < t.0@.len() ==> (#[trigger] final(ABC_Z_2).AZ@[i]).value()
                    == t.0@[i].value()
            &&& forall|i: int|
                0 <= i < t.1@.len() ==> (#[trigger] final(ABC_Z_2).BZ@[i]).value()
                    == t.1@[i].value()
            &&& forall|i: int|
                0 <= i < t.2@.len() ==> (#[trigger] final(ABC_Z_2).CZ@[i]).value()
                    == t.2@[i].value()
        },
{
    E::Scalar::lemma_residue(one);
    if p is Ok {
        let (h, t) = (*final(ABC_Z_1), p->Ok_0);
        lemma_equal_values(h.AZ@, t.0@);
        lemma_equal_values(h.BZ@, t.1@);
        lemma_equal_values(h.CZ@, t.2@);
    }
    if c is Ok {
        let (h, t) = (*final(ABC_Z_2), q->Ok_0);
        lemma_equal_values(h.AZ@, t.0@);
        lemma_equal_values(h.BZ@, t.1@);
        lemma_equal_values(h.CZ@, t.2@);
        lemma_equal_values(final(T)@, r->Ok_0.0@);
    }
}

/// Where the check of a relaxed pair and that of an R1CS pair succeed, the check of the pair that
/// comes of folding them with their cross-term and any challenge succeeds, where the key commits
/// linearly.
pub proof fn law_folded_pair_passes_the_check<E: Engine>(
    S: R1CSShape<E>,
    ck: CommitmentKey<E>,
    U1: RelaxedR1CSInstance<E>,
    W1: RelaxedR1CSWitness<E>,
    U2: R1CSInstance<E>,
    W2: R1CSWitness<E>,
    T: Vec<E::Scalar>,
    t: &[E::Scalar],
    comm_T: Commitment<E>,
    r: E::Scalar,
    U: RelaxedR1CSInstance<E>,
    W: RelaxedR1CSWitness<E>,
    answer: Result<(), NovaError>,
)
    requires
        S.wf(),
        S.A.indptr@.len() == S.num_cons + 1,
        S.B.indptr@.len() == S.num_cons + 1,
        S.C.indptr@.len() == S.num_cons + 1,
        W1.W@.len() == S.num_vars,
        W1.E@.len() == S.num_cons,
        U1.X@.len() == S.num_io,
        W2.W@.len() == S.num_vars,
        U2.X@.len() == S.num_io,
        S.num_vars <= CE::<E>::capacity(ck),
        S.num_cons <= CE::<E>::capacity(ck),
        commits_linearly::<E>(ck),
        t@ == T@,
        call_ensures(
            R1CSShape::<E>::is_sat_relaxed,
            (&S, &ck, &U1, &W1),
            Ok::<(), NovaError>(()),
        ),
        call_ensures(R1CSShape::<E>::is_sat, (&S, &ck, &U2, &W2), Ok::<(), NovaError>(())),
        call_ensures(
            R1CSShape::<E>::commit_T,
            (&S, &ck, &U1, &W1, &U2, &W2),
            Ok::<(Vec<E::Scalar>, Commitment<E>), NovaError>((T, comm_T)),
        ),
        call_ensures(RelaxedR1CSInstance::<E>::fold, (&U1, &U2, &comm_T, &r), U),
        call_ensures(
            RelaxedR1CSWitness::<E>::fold,
            (&W1, &W2, t, &r),
            Ok::<RelaxedR1CSWitness<E>, NovaError>(W),
        ),
        call_ensures(R1CSShape::<E>::is_sat_relaxed, (&S, &ck, &U, &W), answer),
    ensures
        answer is Ok,
{
    law_folding_keeps_satisfaction(S, ck, U1, W1, U2, W2, T@, comm_T, r, U, W);
}

} // verus!
