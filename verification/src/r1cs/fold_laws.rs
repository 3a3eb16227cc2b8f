//! What a call of a fold does to every part, for every challenge.
use super::instance::{R1CSInstance, RelaxedR1CSInstance};
use super::witness::{R1CSWitness, RelaxedR1CSWitness};
use crate::errors::NovaError;
use crate::field::{values, Scalar};
use crate::traits::{Commitment, CommitmentTrait, Engine};
use vstd::arithmetic::div_mod::*;
use vstd::prelude::*;

verus! {

/// Where a number is `a + b` up to multiples of the modulus, it has grown by `b` from `a`.
proof fn lemma_growth(m: int, a: int, b: int, c: int)
    requires
        m > 0,
        c == (a + b) % m,
    ensures
        (c - a) % m == b % m,
{
    lemma_sub_mod_noop(a + b, a, m);
    lemma_mod_twice(a + b, m);
    lemma_sub_mod_noop(c, a, m);
    assert(a + b - a == b);
}

/// Folding an instance adds exactly the challenge to the scalar, the challenge times the item of
/// the other instance to each public input and output, and the challenge times the other
/// commitment to each commitment.
pub proof fn law_instance_fold_grows_by_the_challenge<E: Engine>(
    U1: RelaxedR1CSInstance<E>,
    U2: R1CSInstance<E>,
    comm_T: Commitment<E>,
    r: E::Scalar,
    U: RelaxedR1CSInstance<E>,
)
    requires
        call_ensures(RelaxedR1CSInstance::<E>::fold, (&U1, &U2, &comm_T, &r), U),
    ensures
        (U.u.value() - U1.u.value()) % (E::Scalar::modulus() as int) == r.value(),
        U.X@.len() == U1.X@.len() || U.X@.len() == U2.X@.len(),
        U.X@.len() <= U1.X@.len(),
        U.X@.len() <= U2.X@.len(),
        forall|i: int|
            0 <= i < U.X@.len() ==> (#[trigger] U.X@[i].value() - U1.X@[i].value()) % (
            E::Scalar::modulus() as int) == (r.value() * U2.X@[i].value()) % E::Scalar::modulus(),
        U.comm_W.element() == Commitment::<E>::sum(
            U1.comm_W.element(),
            Commitment::<E>::scaled(U2.comm_W.element(), r.value()),
        ),
        U.comm_E.element() == Commitment::<E>::sum(
            U1.comm_E.element(),
            Commitment::<E>::scaled(comm_T.element(), r.value()),
        ),
{
    let m = E::Scalar::modulus() as int;
    E::Scalar::lemma_residue(r);
    lemma_growth(m, U1.u.value() as int, r.value() as int, U.u.value() as int);
    lemma_small_mod(r.value(), E::Scalar::modulus());
    assert(values(U.X@).len() == U.X@.len());
    assert forall|i: int| 0 <= i < U.X@.len() implies (#[trigger] U.X@[i].value()
        - U1.X@[i].value()) % m == (r.value() * U2.X@[i].value()) % E::Scalar::modulus() by {
        assert(values(U.X@)[i] == U.X@[i].value());
        assert(values(U1.X@)[i] == U1.X@[i].value());
        assert(values(U2.X@)[i] == U2.X@[i].value());
        lemma_growth(
            m,
            U1.X@[i].value() as int,
            (r.value() * U2.X@[i].value()) as int,
            U.X@[i].value() as int,
        );
    }
}

/// Folding an instance in place adds exactly the challenge to the scalar, the challenge times the
/// item of the other instance to each public input and output, and the challenge times the other
/// commitment to each commitment.
pub proof fn law_instance_fold_mut_grows_by_the_challenge<E: Engine>(
    U: &mut RelaxedR1CSInstance<E>,
    U2: R1CSInstance<E>,
    comm_T: Commitment<E>,
    r: E::Scalar,
)
    requires
        old(U).X@.len() == U2.X@.len(),
        call_ensures(RelaxedR1CSInstance::<E>::fold_mut, (U, &U2, &comm_T, &r), ()),
    ensures
        (final(U).u.value() - old(U).u.value()) % (E::Scalar::modulus() as int) == r.value(),
        final(U).X@.len() == old(U).X@.len(),
        forall|i: int|
            0 <= i < old(U).X@.len() ==> (#[trigger] final(U).X@[i].value()
                - old(U).X@[i].value()) % (E::Scalar::modulus() as int) == (r.value()
                * U2.X@[i].value()) % E::Scalar::modulus(),
        final(U).comm_W.element() == Commitment::<E>::sum(
            old(U).comm_W.element(),
            Commitment::<E>::scaled(U2.comm_W.element(), r.value()),
        ),
        final(U).comm_E.element() == Commitment::<E>::sum(
            old(U).comm_E.element(),
            Commitment::<E>::scaled(comm_T.element(), r.value()),
        ),
{
    let m = E::Scalar::modulus() as int;
    let (before, after) = (*old(U), *final(U));
    E::Scalar::lemma_residue(r);
    lemma_growth(m, before.u.value() as int, r.value() as int, after.u.value() as int);
    lemma_small_mod(r.value(), E::Scalar::modulus());
    assert(values(after.X@).len() == after.X@.len());
    assert forall|i: int| 0 <= i < before.X@.len() implies (#[trigger] after.X@[i].value()
        - before.X@[i].value()) % m == (r.value() * U2.X@[i].value()) % E::Scalar::modulus() by {
        assert(values(after.X@)[i] == after.X@[i].value());
        assert(values(before.X@)[i] == before.X@[i].value());
        assert(values(U2.X@)[i] == U2.X@[i].value());
        lemma_growth(
            m,
            before.X@[i].value() as int,
            (r.value() * U2.X@[i].value()) as int,
            after.X@[i].value() as int,
        );
    }
}

/// Two different challenges give folded instances with two different scalars.
pub proof fn law_challenges_give_different_scalars<E: Engine>(
    U1: RelaxedR1CSInstance<E>,
    U2: R1CSInstance<E>,
    comm_T: Commitment<E>,
    r: E::Scalar,
    U: RelaxedR1CSInstance<E>,
    s: E::Scalar,
    V: RelaxedR1CSInstance<E>,
)
    requires
        call_ensures(RelaxedR1CSInstance::<E>::fold, (&U1, &U2, &comm_T, &r), U),
        call_ensures(RelaxedR1CSInstance::<E>::fold, (&U1, &U2, &comm_T, &s), V),
        r.value() != s.value(),
    ensures
        U.u.value() != V.u.value(),
{
    law_instance_fold_grows_by_the_challenge(U1, U2, comm_T, r, U);
    law_instance_fold_grows_by_the_challenge(U1, U2, comm_T, s, V);
}

/// Folding a witness adds the challenge times the variable of the other witness to each variable,
/// and the challenge times the item of the cross-term to each error.
pub proof fn law_witness_fold_grows_by_the_challenge<E: Engine>(
    W1: RelaxedR1CSWitness<E>,
    W2: R1CSWitness<E>,
    T: &[E::Scalar],
    r: E::Scalar,
    folded: Result<RelaxedR1CSWitness<E>, NovaError>,
)
    requires
        call_ensures(RelaxedR1CSWitness::<E>::fold, (&W1, &W2, T, &r), folded),
    ensures
        W1.W@.len() != W2.W@.len() ==> folded == Err::<RelaxedR1CSWitness<E>, _>(
            NovaError::InvalidWitnessLength,
        ),
        W1.W@.len() == W2.W@.len() ==> {
            &&& folded matches Ok(W)
            &&& W.W@.len() == W1.W@.len()
            &&& forall|i: int|
                0 <= i < W.W@.len() ==> (#[trigger] W.W@[i].value() - W1.W@[i].value()) % (
                E::Scalar::modulus() as int) == (r.value() * W2.W@[i].value())
                    % E::Scalar::modulus()
            &&& W.E@.len() == W1.E@.len() || W.E@.len() == T@.len()
            &&& W.E@.len() <= W1.E@.len()
            &&& W.E@.len() <= T@.len()
            &&& forall|i: int|
                0 <= i < W.E@.len() ==> (#[trigger] W.E@[i].value() - W1.E@[i].value()) % (
                E::Scalar::modulus() as int) == (r.value() * T@[i].value()) % E::Scalar::modulus()
        },
{
    if W1.W@.len() == W2.W@.len() {
        let m = E::Scalar::modulus() as int;
        let W = folded->Ok_0;
        E::Scalar::lemma_residue(r);
        assert(values(W.W@).len() == W.W@.len());
        assert(values(W.E@).len() == W.E@.len());
        assert forall|i: int| 0 <= i < W.W@.len() implies (#[trigger] W.W@[i].value()
            - W1.W@[i].value()) % m == (r.value() * W2.W@[i].value()) % E::Scalar::modulus() by {
            assert(values(W.W@)[i] == W.W@[i].value());
            assert(values(W1.W@)[i] == W1.W@[i].value());
            assert(values(W2.W@)[i] == W2.W@[i].value());
            lemma_growth(
                m,
                W1.W@[i].value() as int,
                (r.value() * W2.W@[i].value()) as int,
                W.W@[i].value() as int,
            );
        }
        assert forall|i: int| 0 <= i < W.E@.len() implies (#[trigger] W.E@[i].value()
            - W1.E@[i].value()) % m == (r.value() * T@[i].value()) % E::Scalar::modulus() by {
            assert(values(W.E@)[i] == W.E@[i].value());
            assert(values(W1.E@)[i] == W1.E@[i].value());
            assert(values(T@)[i] == T@[i].value());
            lemma_growth(
                m,
                W1.E@[i].value() as int,
                (r.value() * T@[i].value()) as int,
                W.E@[i].value() as int,
            );
        }
    }
}

/// Folding a witness in place adds the challenge times the variable of the other witness to each
/// variable, and the challenge times the item of the cross-term to each error. Where the lengths
/// differ, nothing changes.
pub proof fn law_witness_fold_mut_grows_by_the_challenge<E: Engine>(
    W: &mut RelaxedR1CSWitness<E>,
    W2: R1CSWitness<E>,
    T: &[E::Scalar],
    r: E::Scalar,
    folded: Result<(), NovaError>,
)
    requires
        old(W).W@.len() == W2.W@.len() ==> old(W).E@.len() == T@.len(),
        call_ensures(RelaxedR1CSWitness::<E>::fold_mut, (W, &W2, T, &r), folded),
    ensures
        old(W).W@.len() != W2.W@.len() ==> {
            &&& folded == Err::<(), _>(NovaError::InvalidWitnessLength)
            &&& *final(W) == *old(W)
        },
        old(W).W@.len() == W2.W@.len() ==> {
            &&& folded is Ok
            &&& final(W).W@.len() == old(W).W@.len()
            &&& forall|i: int|
                0 <= i < old(W).W@.len() ==> (#[trigger] final(W).W@[i].value()
                    - old(W).W@[i].value()) % (E::Scalar::modulus() as int) == (r.value()
                    * W2.W@[i].value()) % E::Scalar::modulus()
            &&& final(W).E@.len() == old(W).E@.len()
            &&& forall|i: int|
                0 <= i < old(W).E@.len() ==> (#[trigger] final(W).E@[i].value()
                    - old(W).E@[i].value()) % (E::Scalar::modulus() as int) == (r.value()
                    * T@[i].value()) % E::Scalar::modulus()
        },
{
    let (before, after) = (*old(W), *final(W));
    if before.W@.len() == W2.W@.len() {
        let m = E::Scalar::modulus() as int;
        E::Scalar::lemma_residue(r);
        assert(values(after.W@).len() == after.W@.len());
        assert(values(after.E@).len() == after.E@.len());
        assert forall|i: int| 0 <= i < before.W@.len() implies (#[trigger] after.W@[i].value()
            - before.W@[i].value()) % m == (r.value() * W2.W@[i].value())
            % E::Scalar::modulus() by {
            assert(values(after.W@)[i] == after.W@[i].value());
            assert(values(before.W@)[i] == before.W@[i].value());
            assert(values(W2.W@)[i] == W2.W@[i].value());
            lemma_growth(
                m,
                before.W@[i].value() as int,
                (r.value() * W2.W@[i].value()) as int,
                after.W@[i].value() as int,
            );
        }
        assert forall|i: int| 0 <= i < before.E@.len() implies (#[trigger] after.E@[i].value()
            - before.E@[i].value()) % m == (r.value() * T@[i].value()) % E::Scalar::modulus() by {
            assert(values(after.E@)[i] == after.E@[i].value());
            assert(values(before.E@)[i] == before.E@[i].value());
            assert(values(T@)[i] == T@[i].value());
            lemma_growth(
                m,
                before.E@[i].value() as int,
                (r.value() * T@[i].value()) as int,
                after.E@[i].value() as int,
            );
        }
    }
}

} // verus!
