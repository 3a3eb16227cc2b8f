//! R1CS instances and relaxed ones.
use super::shape::R1CSShape;
use super::witness::{combine_vectors, combine_vectors_mut};
use crate::bignum::{limbs, scalar_as_base, scalar_limbs, BN_N_LIMBS};
use crate::errors::NovaError;
use crate::field::{combine, copied, filled, residue, values, zeros, Scalar};
use crate::traits::{
    AbsorbInROTrait, Commitment, CommitmentKey, CommitmentTrait, Engine, ROTrait,
    TranscriptReprTrait,
};
use vstd::prelude::*;

verus! {

/// An R1CS instance.
#[derive(Clone, Debug, PartialEq, Eq)]
pub struct R1CSInstance<E: Engine> {
    /// The commitment to the variables.
    pub comm_W: Commitment<E>,
    /// The public inputs and outputs.
    pub X: Vec<E::Scalar>,
}

/// A relaxed R1CS instance.
#[derive(Clone, Debug, PartialEq, Eq)]
pub struct RelaxedR1CSInstance<E: Engine> {
    /// The commitment to the variables.
    pub comm_W: Commitment<E>,
    /// The commitment to the errors.
    pub comm_E: Commitment<E>,
    /// The public inputs and outputs.
    pub X: Vec<E::Scalar>,
    /// The scalar that scales the results of the constraints.
    pub u: E::Scalar,
}

impl<E: Engine> R1CSInstance<E> {
    /// Creates an instance from its parts.
    pub fn new(S: &R1CSShape<E>, comm_W: Commitment<E>, X: Vec<E::Scalar>) -> (r: Result<
        R1CSInstance<E>,
        NovaError,
    >)
        ensures
            r is Ok <==> X@.len() == S.num_io,
            r matches Ok(i) ==> i.comm_W == comm_W && i.X == X,
            r matches Err(e) ==> e == NovaError::InvalidInputLength,
    {
        if S.num_io != X.len() {
            Err(NovaError::InvalidInputLength)
        } else {
            Ok(R1CSInstance { comm_W, X })
        }
    }
}

/// The elements that stand for scalars in a random oracle over the base field.
pub open spec fn base_elements(base: nat, scalars: Seq<nat>) -> Seq<nat> {
    Seq::new(scalars.len(), |i: int| residue(base, scalars[i] as int))
}

/// The elements that stand for the limbs of a scalar in a random oracle over the base field.
pub open spec fn limb_elements(base: nat, scalar: nat, x: nat) -> Seq<nat> {
    Seq::new(
        BN_N_LIMBS as nat,
        |i: int|
            residue(base, residue(scalar, limbs(x, BN_N_LIMBS as nat)[i] as int) as int),
    )
}

/// The elements that stand for the limbs of all scalars, one scalar after the other.
pub open spec fn all_limb_elements(base: nat, scalar: nat, xs: Seq<nat>) -> Seq<nat>
    decreases xs.len(),
{
    if xs.len() == 0 {
        Seq::empty()
    } else {
        all_limb_elements(base, scalar, xs.drop_last()) + limb_elements(base, scalar, xs.last())
    }
}

impl<E: Engine> AbsorbInROTrait<E::RO> for R1CSInstance<E> {
    /// The elements of the commitment, then the public inputs and outputs.
    open spec fn ro_elements(&self) -> Seq<nat> {
        self.comm_W.ro_elements() + base_elements(E::Base::modulus(), values(self.X@))
    }

    fn absorb_in_ro(&self, ro: &mut E::RO) {
        let ghost start = ro.absorbed();
        self.comm_W.absorb_in_ro(ro);
        let ghost head = start + self.comm_W.ro_elements();
        let ghost tail = base_elements(E::Base::modulus(), values(self.X@));
        let mut i: usize = 0;
        assert(ro.absorbed() =~= head + tail.take(0));
        while i < self.X.len()
            invariant
                i <= self.X@.len(),
                tail == base_elements(E::Base::modulus(), values(self.X@)),
                ro.absorbed() == head + tail.take(i as int),
            decreases self.X@.len() - i,
        {
            ro.absorb(scalar_as_base::<E::Scalar, E::Base>(&self.X[i]));
            i += 1;
            assert(ro.absorbed() =~= head + tail.take(i as int));
        }
        assert(tail.take(i as int) =~= tail);
        assert(head + tail =~= start + self.ro_elements());
    }
}

impl<E: Engine> RelaxedR1CSInstance<E> {
    /// The instance of zeros for a shape.
    pub fn default(_ck: &CommitmentKey<E>, S: &R1CSShape<E>) -> (r: RelaxedR1CSInstance<E>)
        ensures
            r.is_default(*S),
    {
        let (comm_W, comm_E) = (Commitment::<E>::identity(), Commitment::<E>::identity());
        let r = RelaxedR1CSInstance {
            comm_W,
            comm_E,
            u: E::Scalar::zero(),
            X: filled(E::Scalar::zero(), S.num_io),
        };
        assert(values(r.X@) =~= zeros(S.num_io as nat));
        r
    }

    /// The instance is the relaxed one with the given commitment and public inputs and outputs,
    /// the scalar 1, and a commitment to no errors.
    pub open spec fn relaxes(&self, comm_W: Commitment<E>, X: Seq<E::Scalar>) -> bool {
        &&& self.comm_W == comm_W
        &&& self.comm_E.element() == Commitment::<E>::neutral()
        &&& self.u.value() == 1
        &&& self.X@ == X
    }

    /// The instance is the one of zeros for a shape.
    pub open spec fn is_default(&self, S: R1CSShape<E>) -> bool {
        &&& self.comm_W.element() == Commitment::<E>::neutral()
        &&& self.comm_E.element() == Commitment::<E>::neutral()
        &&& self.u.value() == 0
        &&& values(self.X@) == zeros(S.num_io as nat)
    }

    /// Turns an instance into a relaxed one.
    pub fn from_r1cs_instance(
        _ck: &CommitmentKey<E>,
        S: &R1CSShape<E>,
        instance: R1CSInstance<E>,
    ) -> (r: RelaxedR1CSInstance<E>)
        requires
            S.num_io == instance.X@.len(),
        ensures
            r.relaxes(instance.comm_W, instance.X@),
    {
        RelaxedR1CSInstance {
            comm_W: instance.comm_W,
            comm_E: Commitment::<E>::identity(),
            u: E::Scalar::one(),
            X: instance.X,
        }
    }

    /// Makes a relaxed instance from the parts of an instance, without looking at a shape.
    pub fn from_r1cs_instance_unchecked(comm_W: &Commitment<E>, X: &[E::Scalar]) -> (r:
        RelaxedR1CSInstance<E>)
        ensures
            r.relaxes(*comm_W, X@),
    {
        RelaxedR1CSInstance {
            comm_W: *comm_W,
            comm_E: Commitment::<E>::identity(),
            u: E::Scalar::one(),
            X: copied(X),
        }
    }

    /// An instance is what comes of folding an R1CS instance into this one: the weighted sums of
    /// the commitments, of the public inputs and outputs, and of the scalar, which is 1 for the
    /// R1CS instance.
    pub open spec fn folds_to(
        &self,
        U2: R1CSInstance<E>,
        comm_T: Commitment<E>,
        r: E::Scalar,
        folded: Self,
    ) -> bool {
        let m = E::Scalar::modulus();
        &&& folded.comm_W.element() == Commitment::<E>::sum(
            self.comm_W.element(),
            Commitment::<E>::scaled(U2.comm_W.element(), r.value()),
        )
        &&& folded.comm_E.element() == Commitment::<E>::sum(
            self.comm_E.element(),
            Commitment::<E>::scaled(comm_T.element(), r.value()),
        )
        &&& values(folded.X@) == combine(m, values(self.X@), r.value(), values(U2.X@))
        &&& folded.u.value() == residue(m, (self.u.value() + r.value()) as int)
    }

    /// Folds an R1CS instance into this one.
    pub fn fold(&self, U2: &R1CSInstance<E>, comm_T: &Commitment<E>, r: &E::Scalar) -> (folded:
        RelaxedR1CSInstance<E>)
        ensures
            self.folds_to(*U2, *comm_T, *r, folded),
    {
        let X = combine_vectors(&self.X, r, &U2.X);
        let comm_W = self.comm_W.add(U2.comm_W.mul(*r));
        let comm_E = self.comm_E.add(comm_T.mul(*r));
        let u = self.u.add(*r);
        RelaxedR1CSInstance { comm_W, comm_E, X, u }
    }

    /// Folds an R1CS instance into this one in place.
    pub fn fold_mut(&mut self, U2: &R1CSInstance<E>, comm_T: &Commitment<E>, r: &E::Scalar)
        requires
            old(self).X@.len() == U2.X@.len(),
        ensures
            old(self).folds_to(*U2, *comm_T, *r, *final(self)),
    {
        combine_vectors_mut(&mut self.X, r, &U2.X);
        self.comm_W = self.comm_W.add(U2.comm_W.mul(*r));
        self.comm_E = self.comm_E.add(comm_T.mul(*r));
        self.u = self.u.add(*r);
    }
}

/// The bytes of all scalars, one scalar after the other.
pub open spec fn all_transcript_bytes<T: TranscriptReprTrait>(items: Seq<T>) -> Seq<u8>
    decreases items.len(),
{
    if items.len() == 0 {
        Seq::empty()
    } else {
        all_transcript_bytes(items.drop_last()) + items.last().transcript_bytes()
    }
}

impl<E: Engine> TranscriptReprTrait for RelaxedR1CSInstance<E> {
    /// The bytes of the commitments, of the scalar, and of the public inputs and outputs.
    open spec fn transcript_bytes(&self) -> Seq<u8> {
        self.comm_W.transcript_bytes() + self.comm_E.transcript_bytes() + self.u.transcript_bytes()
            + all_transcript_bytes(self.X@)
    }

    fn to_transcript_bytes(&self) -> (r: Vec<u8>) {
        let mut r = self.comm_W.to_transcript_bytes();
        let mut comm_E = self.comm_E.to_transcript_bytes();
        r.append(&mut comm_E);
        let mut u = self.u.to_transcript_bytes();
        r.append(&mut u);
        let ghost head = r@;
        let mut i: usize = 0;
        assert(r@ =~= head + all_transcript_bytes(self.X@.take(0)));
        while i < self.X.len()
            invariant
                i <= self.X@.len(),
                r@ == head + all_transcript_bytes(self.X@.take(i as int)),
            decreases self.X@.len() - i,
        {
            let mut x = self.X[i].to_transcript_bytes();
            assert(self.X@.take(i + 1).drop_last() =~= self.X@.take(i as int));
            r.append(&mut x);
            i += 1;
            assert(r@ =~= head + all_transcript_bytes(self.X@.take(i as int)));
        }
        assert(self.X@.take(i as int) =~= self.X@);
        r
    }
}

impl<E: Engine> AbsorbInROTrait<E::RO> for RelaxedR1CSInstance<E> {
    /// The elements of the commitments, the scalar, then the limbs of the public inputs and
    /// outputs.
    open spec fn ro_elements(&self) -> Seq<nat> {
        let base = E::Base::modulus();
        self.comm_W.ro_elements() + self.comm_E.ro_elements() + seq![
            residue(base, self.u.value() as int),
        ] + all_limb_elements(base, E::Scalar::modulus(), values(self.X@))
    }

    fn absorb_in_ro(&self, ro: &mut E::RO) {
        let ghost start = ro.absorbed();
        let ghost base = E::Base::modulus();
        let ghost scalar = E::Scalar::modulus();
        self.comm_W.absorb_in_ro(ro);
        self.comm_E.absorb_in_ro(ro);
        ro.absorb(scalar_as_base::<E::Scalar, E::Base>(&self.u));
        let ghost head = ro.absorbed();
        let ghost xs = values(self.X@);
        let mut i: usize = 0;
        assert(ro.absorbed() =~= head + all_limb_elements(base, scalar, xs.take(0)));
        while i < self.X.len()
            invariant
                i <= self.X@.len(),
                xs == values(self.X@),
                base == E::Base::modulus(),
                scalar == E::Scalar::modulus(),
                ro.absorbed() == head + all_limb_elements(base, scalar, xs.take(i as int)),
            decreases self.X@.len() - i,
        {
            let ghost before = ro.absorbed();
            let limbs_of_x = scalar_limbs(&self.X[i]);
            let ghost part = limb_elements(base, scalar, xs[i as int]);
            let mut k: usize = 0;
            assert(ro.absorbed() =~= before + part.take(0));
            while k < limbs_of_x.len()
                invariant
                    k <= limbs_of_x@.len() == BN_N_LIMBS,
                    i < self.X@.len(),
                    xs == values(self.X@),
                    base == E::Base::modulus(),
                    scalar == E::Scalar::modulus(),
                    part == limb_elements(base, scalar, xs[i as int]),
                    forall|j: int|
                        0 <= j < BN_N_LIMBS ==> (#[trigger] limbs_of_x@[j]).value() == residue(
                            scalar,
                            limbs(xs[i as int], BN_N_LIMBS as nat)[j] as int,
                        ),
                    ro.absorbed() == before + part.take(k as int),
                decreases limbs_of_x@.len() - k,
            {
                ro.absorb(scalar_as_base::<E::Scalar, E::Base>(&limbs_of_x[k]));
                k += 1;
                assert(ro.absorbed() =~= before + part.take(k as int));
            }
            proof {
                assert(part.take(k as int) =~= part);
                assert(xs.take(i + 1).drop_last() =~= xs.take(i as int));
            }
            i += 1;
            assert(ro.absorbed() =~= head + all_limb_elements(base, scalar, xs.take(i as int)));
        }
        assert(xs.take(i as int) =~= xs);
        assert(ro.absorbed() =~= start + self.ro_elements());
    }
}

} // verus!
