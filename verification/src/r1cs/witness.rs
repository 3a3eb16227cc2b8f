//! Witnesses for R1CS instances and for relaxed ones.
use super::shape::R1CSShape;
use crate::errors::NovaError;
use crate::field::{combine, combine_elements, copied, filled, residue, values, zeros, Scalar};
use crate::parallel::{par_zip_eq_for_each_mut, par_zip_map};
use crate::traits::{Commitment, CommitmentEngineTrait, CommitmentKey, CommitmentTrait, Engine, CE};
use vstd::prelude::*;

verus! {

/// A witness for an R1CS instance.
#[derive(Clone, Debug, PartialEq, Eq)]
pub struct R1CSWitness<E: Engine> {
    /// The values of the variables.
    pub W: Vec<E::Scalar>,
}

/// A witness for a relaxed R1CS instance.
#[derive(Clone, Debug, PartialEq, Eq)]
pub struct RelaxedR1CSWitness<E: Engine> {
    /// The values of the variables.
    pub W: Vec<E::Scalar>,
    /// The errors of the constraints.
    pub E: Vec<E::Scalar>,
}

/// Computes `a + r * b` item by item, as far as both vectors reach.
pub(crate) fn combine_vectors<S: Scalar>(a: &[S], r: &S, b: &[S]) -> (s: Vec<S>)
    ensures
        values(s@) == combine(S::modulus(), values(a@), r.value(), values(b@)),
{
    let s = par_zip_map(
        a,
        b,
        |x: &S, y: &S| -> (s: S)
            ensures
                s.value() == residue(S::modulus(), (x.value() + r.value() * y.value()) as int)
            { combine_elements(*x, *r, *y) },
    );
    proof {
        let c = combine(S::modulus(), values(a@), r.value(), values(b@));
        assert forall|i: int| 0 <= i < s@.len() implies values(s@)[i] == #[trigger] c[i] by {
            assert(s@[i].value() == residue(
                S::modulus(),
                (a@[i].value() + r.value() * b@[i].value()) as int,
            ));
        }
        assert(values(s@) =~= c);
    }
    s
}

/// Replaces `a` by `a + r * b`, item by item.
pub(crate) fn combine_vectors_mut<S: Scalar>(a: &mut Vec<S>, r: &S, b: &[S])
    requires
        old(a)@.len() == b@.len(),
    ensures
        values(final(a)@) == combine(S::modulus(), values(old(a)@), r.value(), values(b@)),
{
    let ghost before = a@;
    par_zip_eq_for_each_mut(
        a,
        b,
        |x: &mut S, y: &S|
            ensures
                final(x).value() == residue(
                    S::modulus(),
                    (old(x).value() + r.value() * y.value()) as int,
                )
            {
                *x = combine_elements(*x, *r, *y);
            },
    );
    proof {
        let c = combine(S::modulus(), values(before), r.value(), values(b@));
        assert forall|i: int| 0 <= i < a@.len() implies values(a@)[i] == #[trigger] c[i] by {
            assert(a@[i].value() == residue(
                S::modulus(),
                (before[i].value() + r.value() * b@[i].value()) as int,
            ));
        }
        assert(values(a@) =~= c);
    }
}

/// Appends zeros to the items of a slice.
fn padded<S: Scalar>(items: &[S], n: usize) -> (r: Vec<S>)
    requires
        items@.len() <= n,
    ensures
        values(r@) == values(items@) + zeros((n - items@.len()) as nat),
{
    let mut r = copied(items);
    let mut zeroed = filled(S::zero(), n - items.len());
    r.append(&mut zeroed);
    assert(values(r@) =~= values(items@) + zeros((n - items@.len()) as nat));
    r
}

impl<E: Engine> R1CSWitness<E> {
    /// Creates a witness from a vector of scalars.
    pub fn new(S: &R1CSShape<E>, W: Vec<E::Scalar>) -> (r: Result<R1CSWitness<E>, NovaError>)
        ensures
            r is Ok <==> W@.len() == S.num_vars,
            r matches Ok(w) ==> w.W == W,
            r matches Err(e) ==> e == NovaError::InvalidWitnessLength,
    {
        if S.num_vars != W.len() {
            Err(NovaError::InvalidWitnessLength)
        } else {
            Ok(R1CSWitness { W })
        }
    }

    /// Commits to the witness with the given generators.
    pub fn commit(&self, ck: &CommitmentKey<E>) -> (c: Commitment<E>)
        requires
            self.W@.len() <= CE::<E>::capacity(*ck),
        ensures
            c.element() == CE::<E>::committed(*ck, values(self.W@)),
    {
        CE::<E>::commit(ck, &self.W)
    }
}

impl<E: Engine> RelaxedR1CSWitness<E> {
    /// The witness of zeros for a shape.
    pub fn default(S: &R1CSShape<E>) -> (r: RelaxedR1CSWitness<E>)
        ensures
            values(r.W@) == zeros(S.num_vars as nat),
            values(r.E@) == zeros(S.num_cons as nat),
    {
        let zero = E::Scalar::zero();
        let r = RelaxedR1CSWitness { W: filled(zero, S.num_vars), E: filled(zero, S.num_cons) };
        assert(values(r.W@) =~= zeros(S.num_vars as nat));
        assert(values(r.E@) =~= zeros(S.num_cons as nat));
        r
    }

    /// Turns a witness into a relaxed one without errors.
    pub fn from_r1cs_witness(S: &R1CSShape<E>, witness: R1CSWitness<E>) -> (r: RelaxedR1CSWitness<
        E,
    >)
        ensures
            r.W == witness.W,
            values(r.E@) == zeros(S.num_cons as nat),
    {
        let r = RelaxedR1CSWitness { W: witness.W, E: filled(E::Scalar::zero(), S.num_cons) };
        assert(values(r.E@) =~= zeros(S.num_cons as nat));
        r
    }

    /// Commits to the variables and to the errors with the given generators.
    pub fn commit(&self, ck: &CommitmentKey<E>) -> (c: (Commitment<E>, Commitment<E>))
        requires
            self.W@.len() <= CE::<E>::capacity(*ck),
            self.E@.len() <= CE::<E>::capacity(*ck),
        ensures
            c.0.element() == CE::<E>::committed(*ck, values(self.W@)),
            c.1.element() == CE::<E>::committed(*ck, values(self.E@)),
    {
        (CE::<E>::commit(ck, &self.W), CE::<E>::commit(ck, &self.E))
    }

    /// A witness is what comes of folding an R1CS witness into this one: `W1 + r * W2` and
    /// `E1 + r * T`.
    pub open spec fn folds_to(
        &self,
        W2: R1CSWitness<E>,
        T: Seq<E::Scalar>,
        r: E::Scalar,
        folded: Self,
    ) -> bool {
        let m = E::Scalar::modulus();
        &&& values(folded.W@) == combine(m, values(self.W@), r.value(), values(W2.W@))
        &&& values(folded.E@) == combine(m, values(self.E@), r.value(), values(T))
    }

    /// Folds an R1CS witness into this one.
    pub fn fold(&self, W2: &R1CSWitness<E>, T: &[E::Scalar], r: &E::Scalar) -> (folded: Result<
        RelaxedR1CSWitness<E>,
        NovaError,
    >)
        ensures
            folded is Ok <==> self.W@.len() == W2.W@.len(),
            folded matches Ok(f) ==> self.folds_to(*W2, T@, *r, f),
            folded matches Err(e) ==> e == NovaError::InvalidWitnessLength,
    {
        if self.W.len() != W2.W.len() {
            return Err(NovaError::InvalidWitnessLength);
        }
        let W = combine_vectors(&self.W, r, &W2.W);
        let E = combine_vectors(&self.E, r, T);
        Ok(RelaxedR1CSWitness { W, E })
    }

    /// Folds an R1CS witness into this one in place.
    pub fn fold_mut(&mut self, W2: &R1CSWitness<E>, T: &[E::Scalar], r: &E::Scalar) -> (folded:
        Result<(), NovaError>)
        requires
            old(self).W@.len() == W2.W@.len() ==> old(self).E@.len() == T@.len(),
        ensures
            folded is Ok <==> old(self).W@.len() == W2.W@.len(),
            folded is Ok ==> old(self).folds_to(*W2, T@, *r, *final(self)),
            folded matches Err(e) ==> {
                &&& e == NovaError::InvalidWitnessLength
                &&& *final(self) == *old(self)
            },
    {
        if self.W.len() != W2.W.len() {
            return Err(NovaError::InvalidWitnessLength);
        }
        combine_vectors_mut(&mut self.W, r, &W2.W);
        combine_vectors_mut(&mut self.E, r, T);
        Ok(())
    }

    /// A witness is this one with zeros behind it, of the lengths that a shape asks for.
    pub open spec fn padded_to(&self, S: R1CSShape<E>, r: Self) -> bool {
        &&& values(r.W@) == values(self.W@) + zeros((S.num_vars - self.W@.len()) as nat)
        &&& values(r.E@) == values(self.E@) + zeros((S.num_cons - self.E@.len()) as nat)
    }

    /// Pads the witness with zeros to the lengths that a shape asks for.
    pub fn pad(&self, S: &R1CSShape<E>) -> (r: RelaxedR1CSWitness<E>)
        requires
            self.W@.len() <= S.num_vars,
            self.E@.len() <= S.num_cons,
        ensures
            self.padded_to(*S, r),
    {
        RelaxedR1CSWitness { W: padded(&self.W, S.num_vars), E: padded(&self.E, S.num_cons) }
    }
}

} // verus!
