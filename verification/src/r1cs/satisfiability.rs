//! Whether witnesses satisfy instances.
use super::instance::{R1CSInstance, RelaxedR1CSInstance};
use super::shape::R1CSShape;
use super::sparse::assignment;
use super::witness::{R1CSWitness, RelaxedR1CSWitness};
use crate::errors::NovaError;
use crate::field::{congruent, values, Scalar};
use crate::traits::{Commitment, CommitmentEngineTrait, CommitmentKey, CommitmentTrait, Engine, CE};
use vstd::arithmetic::div_mod::*;
use vstd::prelude::*;

verus! {

/// One relaxed constraint: `a * b` is `u * c + e`, up to multiples of the modulus.
pub open spec fn constraint_holds(m: nat, a: nat, b: nat, u: nat, c: nat, e: nat) -> bool {
    congruent(m, (a * b) as int, (u * c + e) as int)
}

impl<E: Engine> R1CSShape<E> {
    /// Each matrix has a row for every constraint and no further ones.
    pub open spec fn has_all_rows(&self) -> bool {
        &&& self.A.num_rows() == self.num_cons
        &&& self.B.num_rows() == self.num_cons
        &&& self.C.num_rows() == self.num_cons
    }

    /// All relaxed constraints hold: `Az * Bz` is `u * Cz + E` in every row, where `z` is made up
    /// of the variables, `u`, and the public inputs and outputs.
    pub open spec fn relaxed_constraints_hold(
        &self,
        W: Seq<nat>,
        errors: Seq<nat>,
        u: nat,
        X: Seq<nat>,
    ) -> bool {
        let z = assignment(W, u, X);
        forall|i: int|
            0 <= i < self.num_cons ==> #[trigger] constraint_holds(
                E::Scalar::modulus(),
                self.az(z)[i],
                self.bz(z)[i],
                u,
                self.cz(z)[i],
                errors[i],
            )
    }

    /// All constraints hold: `Az * Bz` is `Cz` in every row, where `z` is made up of the
    /// variables, 1, and the public inputs and outputs.
    pub open spec fn constraints_hold(&self, W: Seq<nat>, X: Seq<nat>) -> bool {
        let z = assignment(W, 1, X);
        forall|i: int|
            0 <= i < self.num_cons ==> #[trigger] constraint_holds(
                E::Scalar::modulus(),
                self.az(z)[i],
                self.bz(z)[i],
                1,
                self.cz(z)[i],
                0,
            )
    }

    /// A witness satisfies a relaxed instance: the constraints hold, and the instance commits to
    /// the variables and to the errors.
    pub open spec fn relaxed_satisfied(
        &self,
        ck: CommitmentKey<E>,
        U: RelaxedR1CSInstance<E>,
        W: RelaxedR1CSWitness<E>,
    ) -> bool {
        &&& self.relaxed_constraints_hold(
            values(W.W@),
            values(W.E@),
            U.u.value(),
            values(U.X@),
        )
        &&& U.comm_W.element() == CE::<E>::committed(ck, values(W.W@))
        &&& U.comm_E.element() == CE::<E>::committed(ck, values(W.E@))
    }

    /// A witness satisfies an instance: the constraints hold, and the instance commits to the
    /// variables.
    pub open spec fn satisfied(
        &self,
        ck: CommitmentKey<E>,
        U: R1CSInstance<E>,
        W: R1CSWitness<E>,
    ) -> bool {
        &&& self.constraints_hold(values(W.W@), values(U.X@))
        &&& U.comm_W.element() == CE::<E>::committed(ck, values(W.W@))
    }

    /// Checks if the witness satisfies the relaxed instance.
    pub fn is_sat_relaxed(
        &self,
        ck: &CommitmentKey<E>,
        U: &RelaxedR1CSInstance<E>,
        W: &RelaxedR1CSWitness<E>,
    ) -> (r: Result<(), NovaError>)
        requires
            self.wf(),
            self.has_all_rows(),
            W.W@.len() == self.num_vars,
            W.E@.len() == self.num_cons,
            U.X@.len() == self.num_io,
            self.num_vars <= CE::<E>::capacity(*ck),
            self.num_cons <= CE::<E>::capacity(*ck),
        ensures
            r is Ok <==> self.relaxed_satisfied(*ck, *U, *W),
            r matches Err(e) ==> e == NovaError::UnSat,
    {
        let ghost z = assignment(values(W.W@), U.u.value(), values(U.X@));
        let (Az, Bz, Cz) = match self.multiply_witness(&W.W, &U.u, &U.X) {
            Ok(products) => products,
            Err(e) => return Err(e),
        };
        assert(values(Az@).len() == self.num_cons);
        assert(values(Bz@).len() == self.num_cons);
        assert(values(Cz@).len() == self.num_cons);

        // verify if Az * Bz = u * Cz + E
        let mut res_eq = true;
        let mut i: usize = 0;
        while res_eq && i < self.num_cons
            invariant
                i <= self.num_cons,
                Az@.len() == self.num_cons,
                Bz@.len() == self.num_cons,
                Cz@.len() == self.num_cons,
                W.E@.len() == self.num_cons,
                values(Az@) == self.az(z),
                values(Bz@) == self.bz(z),
                values(Cz@) == self.cz(z),
                res_eq ==> forall|j: int|
                    0 <= j < i ==> #[trigger] constraint_holds(
                        E::Scalar::modulus(),
                        self.az(z)[j],
                        self.bz(z)[j],
                        U.u.value(),
                        self.cz(z)[j],
                        values(W.E@)[j],
                    ),
                !res_eq ==> exists|j: int|
                    0 <= j < self.num_cons && !#[trigger] constraint_holds(
                        E::Scalar::modulus(),
                        self.az(z)[j],
                        self.bz(z)[j],
                        U.u.value(),
                        self.cz(z)[j],
                        values(W.E@)[j],
                    ),
            decreases self.num_cons - i,
        {
            let left = Az[i].mul(Bz[i]);
            let right = U.u.mul(Cz[i]).add(W.E[i]);
            proof {
                E::Scalar::lemma_residue(left);
                lemma_add_mod_noop_right(
                    W.E@[i as int].value() as int,
                    (U.u.value() * Cz@[i as int].value()) as int,
                    E::Scalar::modulus() as int,
                );
                assert(values(Az@)[i as int] == Az@[i as int].value());
                assert(values(Bz@)[i as int] == Bz@[i as int].value());
                assert(values(Cz@)[i as int] == Cz@[i as int].value());
                assert(values(W.E@)[i as int] == W.E@[i as int].value());
            }
            res_eq = left.equals(&right);
            assert(res_eq == constraint_holds(
                E::Scalar::modulus(),
                self.az(z)[i as int],
                self.bz(z)[i as int],
                U.u.value(),
                self.cz(z)[i as int],
                values(W.E@)[i as int],
            ));
            i += 1;
        }

        // verify if comm_E and comm_W are commitments to E and W
        let (comm_W, comm_E) = rayon::join(
            || -> (c: Commitment<E>)
                ensures
                    c.element() == CE::<E>::committed(*ck, values(W.W@))
                { CE::<E>::commit(ck, &W.W) },
            || -> (c: Commitment<E>)
                ensures
                    c.element() == CE::<E>::committed(*ck, values(W.E@))
                { CE::<E>::commit(ck, &W.E) },
        );
        let res_comm = U.comm_W.equals(&comm_W) && U.comm_E.equals(&comm_E);

        if res_eq && res_comm {
            Ok(())
        } else {
            Err(NovaError::UnSat)
        }
    }

    /// Checks if the witness satisfies the instance.
    pub fn is_sat(&self, ck: &CommitmentKey<E>, U: &R1CSInstance<E>, W: &R1CSWitness<E>) -> (r:
        Result<(), NovaError>)
        requires
            self.wf(),
            self.has_all_rows(),
            W.W@.len() == self.num_vars,
            U.X@.len() == self.num_io,
            self.num_vars <= CE::<E>::capacity(*ck),
        ensures
            r is Ok <==> self.satisfied(*ck, *U, *W),
            r matches Err(e) ==> e == NovaError::UnSat,
    {
        let ghost z = assignment(values(W.W@), 1, values(U.X@));
        let (Az, Bz, Cz) = match self.multiply_witness(&W.W, &E::Scalar::one(), &U.X) {
            Ok(products) => products,
            Err(e) => return Err(e),
        };
        assert(values(Az@).len() == self.num_cons);
        assert(values(Bz@).len() == self.num_cons);
        assert(values(Cz@).len() == self.num_cons);

        // verify if Az * Bz = Cz
        let mut res_eq = true;
        let mut i: usize = 0;
        while res_eq && i < self.num_cons
            invariant
                i <= self.num_cons,
                Az@.len() == self.num_cons,
                Bz@.len() == self.num_cons,
                Cz@.len() == self.num_cons,
                values(Az@) == self.az(z),
                values(Bz@) == self.bz(z),
                values(Cz@) == self.cz(z),
                res_eq ==> forall|j: int|
                    0 <= j < i ==> #[trigger] constraint_holds(
                        E::Scalar::modulus(),
                        self.az(z)[j],
                        self.bz(z)[j],
                        1,
                        self.cz(z)[j],
                        0,
                    ),
                !res_eq ==> exists|j: int|
                    0 <= j < self.num_cons && !#[trigger] constraint_holds(
                        E::Scalar::modulus(),
                        self.az(z)[j],
                        self.bz(z)[j],
                        1,
                        self.cz(z)[j],
                        0,
                    ),
            decreases self.num_cons - i,
        {
            let left = Az[i].mul(Bz[i]);
            proof {
                E::Scalar::lemma_residue(Cz@[i as int]);
                lemma_small_mod(Cz@[i as int].value(), E::Scalar::modulus());
                assert(values(Az@)[i as int] == Az@[i as int].value());
                assert(values(Bz@)[i as int] == Bz@[i as int].value());
                assert(values(Cz@)[i as int] == Cz@[i as int].value());
            }
            res_eq = left.equals(&Cz[i]);
            assert(res_eq == constraint_holds(
                E::Scalar::modulus(),
                self.az(z)[i as int],
                self.bz(z)[i as int],
                1,
                self.cz(z)[i as int],
                0,
            ));
            i += 1;
        }

        // verify if comm_W is a commitment to W
        let res_comm = U.comm_W.equals(&CE::<E>::commit(ck, &W.W));

        if res_eq && res_comm {
            Ok(())
        } else {
            Err(NovaError::UnSat)
        }
    }
}

} // verus!
