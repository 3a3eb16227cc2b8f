//! The cross-term that arises when an R1CS witness is folded into a relaxed one.
use super::instance::{R1CSInstance, RelaxedR1CSInstance};
use super::shape::{R1CSResult, R1CSShape};
use super::sparse::assignment;
use super::witness::{R1CSWitness, RelaxedR1CSWitness};
use crate::errors::NovaError;
use crate::field::{lemma_congruent_add, lemma_congruent_sub, residue, values, Scalar};
use crate::parallel::{par_map_range, par_map_range_into, par_zip_map};
use crate::traits::{Commitment, CommitmentEngineTrait, CommitmentKey, CommitmentTrait, Engine, CE};
use vstd::arithmetic::div_mod::*;
use vstd::prelude::*;

verus! {

/// One item of the cross-term: `a1 * b2 + a2 * b1 - u1 * c2 - c1`.
pub open spec fn cross_item(
    m: nat,
    a1: nat,
    b1: nat,
    c1: nat,
    u1: nat,
    a2: nat,
    b2: nat,
    c2: nat,
) -> nat {
    residue(m, a1 * b2 + a2 * b1 - u1 * c2 - c1)
}

impl<E: Engine> R1CSShape<E> {
    /// The first `n` items of the cross-term of a relaxed assignment and one with `u = 1`.
    pub open spec fn cross_term(
        &self,
        n: nat,
        W1: Seq<nat>,
        u1: nat,
        X1: Seq<nat>,
        W2: Seq<nat>,
        X2: Seq<nat>,
    ) -> Seq<nat> {
        let z1 = assignment(W1, u1, X1);
        let z2 = assignment(W2, 1, X2);
        Seq::new(
            n,
            |i: int|
                cross_item(
                    E::Scalar::modulus(),
                    self.az(z1)[i],
                    self.bz(z1)[i],
                    self.cz(z1)[i],
                    u1,
                    self.az(z2)[i],
                    self.bz(z2)[i],
                    self.cz(z2)[i],
                ),
        )
    }

    /// The number of rows that both `A` and `C` have.
    pub open spec fn common_rows(&self) -> nat {
        if self.A.num_rows() <= self.C.num_rows() {
            self.A.num_rows()
        } else {
            self.C.num_rows()
        }
    }

    /// A result holds the products of the three matrices with a vector.
    pub open spec fn products_of(&self, result: R1CSResult<E>, z: Seq<nat>) -> bool {
        &&& values(result.AZ@) == self.az(z)
        &&& values(result.BZ@) == self.bz(z)
        &&& values(result.CZ@) == self.cz(z)
    }

    /// Computes the cross-term `T` of a relaxed instance-witness pair and an instance-witness
    /// pair, and a commitment to it.
    pub fn commit_T(
        &self,
        ck: &CommitmentKey<E>,
        U1: &RelaxedR1CSInstance<E>,
        W1: &RelaxedR1CSWitness<E>,
        U2: &R1CSInstance<E>,
        W2: &R1CSWitness<E>,
    ) -> (r: Result<(Vec<E::Scalar>, Commitment<E>), NovaError>)
        requires
            self.wf(),
            self.fits(W1.W@, U1.X@) && self.fits(W2.W@, U2.X@) ==> {
                &&& self.A.num_rows() <= self.B.num_rows()
                &&& self.common_rows() <= CE::<E>::capacity(*ck)
            },
        ensures
            r is Ok <==> self.fits(W1.W@, U1.X@) && self.fits(W2.W@, U2.X@),
            r matches Ok(t) ==> {
                &&& values(t.0@) == self.cross_term(
                    self.common_rows(),
                    values(W1.W@),
                    U1.u.value(),
                    values(U1.X@),
                    values(W2.W@),
                    values(U2.X@),
                )
                &&& t.1.element() == CE::<E>::committed(*ck, values(t.0@))
            },
            r matches Err(e) ==> e == NovaError::InvalidWitnessLength,
    {
        let (AZ_1, BZ_1, CZ_1) = match self.multiply_witness(&W1.W, &U1.u, &U1.X) {
            Ok(products) => products,
            Err(e) => return Err(e),
        };
        let (AZ_2, BZ_2, CZ_2) = match self.multiply_witness(&W2.W, &E::Scalar::one(), &U2.X) {
            Ok(products) => products,
            Err(e) => return Err(e),
        };
        let ghost m = E::Scalar::modulus();
        proof {
            assert(values(AZ_1@).len() == self.A.num_rows());
            assert(values(BZ_1@).len() == self.B.num_rows());
            assert(values(CZ_1@).len() == self.C.num_rows());
            assert(values(AZ_2@).len() == self.A.num_rows());
            assert(values(BZ_2@).len() == self.B.num_rows());
            assert(values(CZ_2@).len() == self.C.num_rows());
        }

        let AZ_1_circ_BZ_2 = par_map_range(
            AZ_1.len(),
            |i: usize| -> (s: E::Scalar)
                requires
                    i < AZ_1@.len() && i < BZ_2@.len(),
                ensures
                    s.value() == (AZ_1@[i as int].value() * BZ_2@[i as int].value()) % m
                { AZ_1[i].mul(BZ_2[i]) },
        );
        let AZ_2_circ_BZ_1 = par_map_range(
            AZ_2.len(),
            |i: usize| -> (s: E::Scalar)
                requires
                    i < AZ_2@.len() && i < BZ_1@.len(),
                ensures
                    s.value() == (AZ_2@[i as int].value() * BZ_1@[i as int].value()) % m
                { AZ_2[i].mul(BZ_1[i]) },
        );
        let u_1_cdot_CZ_2 = par_map_range(
            CZ_2.len(),
            |i: usize| -> (s: E::Scalar)
                requires
                    i < CZ_2@.len(),
                ensures
                    s.value() == (U1.u.value() * CZ_2@[i as int].value()) % m
                { U1.u.mul(CZ_2[i]) },
        );

        let sums = par_zip_map(
            &AZ_1_circ_BZ_2,
            &AZ_2_circ_BZ_1,
            |a: &E::Scalar, b: &E::Scalar| -> (s: E::Scalar)
                ensures
                    s.value() == (a.value() + b.value()) % m
                { a.add(*b) },
        );
        let differences = par_zip_map(
            &sums,
            &u_1_cdot_CZ_2,
            |a: &E::Scalar, b: &E::Scalar| -> (s: E::Scalar)
                ensures
                    s.value() == (a.value() - b.value()) % (m as int)
                { a.sub(*b) },
        );
        let T = par_zip_map(
            &differences,
            &CZ_1,
            |a: &E::Scalar, b: &E::Scalar| -> (s: E::Scalar)
                ensures
                    s.value() == (a.value() - b.value()) % (m as int)
                { a.sub(*b) },
        );
        proof {
            let t = self.cross_term(
                self.common_rows(),
                values(W1.W@),
                U1.u.value(),
                values(U1.X@),
                values(W2.W@),
                values(U2.X@),
            );
            assert forall|i: int| 0 <= i < T@.len() implies values(T@)[i] == #[trigger] t[i] by {
                let (a1, b1, c1) = (AZ_1@[i].value(), BZ_1@[i].value(), CZ_1@[i].value());
                let (a2, b2, c2) = (AZ_2@[i].value(), BZ_2@[i].value(), CZ_2@[i].value());
                let u1 = U1.u.value();
                assert(AZ_1_circ_BZ_2@[i].value() == (a1 * b2) % m);
                assert(AZ_2_circ_BZ_1@[i].value() == (a2 * b1) % m);
                assert(u_1_cdot_CZ_2@[i].value() == (u1 * c2) % m);
                assert(sums@[i].value() == ((a1 * b2) % m + (a2 * b1) % m) % m);
                assert(differences@[i].value() == (sums@[i].value() - (u1 * c2) % m) % (m as int));
                assert(T@[i].value() == (differences@[i].value() - c1) % (m as int));
                E::Scalar::lemma_residue(T@[i]);
                lemma_cross_item(m, a1, b1, c1, u1, a2, b2, c2);
                assert(values(AZ_1@)[i] == a1 && values(BZ_1@)[i] == b1 && values(CZ_1@)[i] == c1);
                assert(values(AZ_2@)[i] == a2 && values(BZ_2@)[i] == b2 && values(CZ_2@)[i] == c2);
            }
            assert(values(T@) =~= t);
        }
        let comm_T = CE::<E>::commit(ck, &T);

        Ok((T, comm_T))
    }

    /// As `commit_T`, with the cross-term in `T` and the products that it is made of in `ABC_Z_1`
    /// and `ABC_Z_2`, each in place of what it held.
    pub fn commit_T_into(
        &self,
        ck: &CommitmentKey<E>,
        U1: &RelaxedR1CSInstance<E>,
        W1: &RelaxedR1CSWitness<E>,
        U2: &R1CSInstance<E>,
        W2: &R1CSWitness<E>,
        T: &mut Vec<E::Scalar>,
        ABC_Z_1: &mut R1CSResult<E>,
        ABC_Z_2: &mut R1CSResult<E>,
    ) -> (r: Result<Commitment<E>, NovaError>)
        requires
            self.wf(),
            self.fits(W1.W@, U1.X@) && self.fits(W2.W@, U2.X@) ==> {
                &&& self.A.num_rows() <= self.B.num_rows()
                &&& self.A.num_rows() <= self.C.num_rows()
                &&& self.A.num_rows() <= CE::<E>::capacity(*ck)
            },
        ensures
            r is Ok <==> self.fits(W1.W@, U1.X@) && self.fits(W2.W@, U2.X@),
            r matches Ok(c) ==> {
                &&& values(final(T)@) == self.cross_term(
                    self.A.num_rows(),
                    values(W1.W@),
                    U1.u.value(),
                    values(U1.X@),
                    values(W2.W@),
                    values(U2.X@),
                )
                &&& c.element() == CE::<E>::committed(*ck, values(final(T)@))
            },
            self.fits(W1.W@, U1.X@) ==> self.products_of(
                *final(ABC_Z_1),
                assignment(values(W1.W@), U1.u.value(), values(U1.X@)),
            ),
            r is Ok ==> self.products_of(
                *final(ABC_Z_2),
                assignment(values(W2.W@), 1, values(U2.X@)),
            ),
            r matches Err(e) ==> {
                &&& e == NovaError::InvalidWitnessLength
                &&& *final(T) == *old(T)
                &&& !self.fits(W1.W@, U1.X@) ==> *final(ABC_Z_1) == *old(ABC_Z_1)
                &&& *final(ABC_Z_2) == *old(ABC_Z_2)
            },
    {
        match self.multiply_witness_into(&W1.W, &U1.u, &U1.X, ABC_Z_1) {
            Ok(()) => {},
            Err(e) => return Err(e),
        }
        match self.multiply_witness_into(&W2.W, &E::Scalar::one(), &U2.X, ABC_Z_2) {
            Ok(()) => {},
            Err(e) => return Err(e),
        }
        let (AZ_1, BZ_1, CZ_1) = (&ABC_Z_1.AZ, &ABC_Z_1.BZ, &ABC_Z_1.CZ);
        let (AZ_2, BZ_2, CZ_2) = (&ABC_Z_2.AZ, &ABC_Z_2.BZ, &ABC_Z_2.CZ);
        let ghost m = E::Scalar::modulus();
        proof {
            assert(values(AZ_1@).len() == self.A.num_rows());
            assert(values(BZ_1@).len() == self.B.num_rows());
            assert(values(CZ_1@).len() == self.C.num_rows());
            assert(values(AZ_2@).len() == self.A.num_rows());
            assert(values(BZ_2@).len() == self.B.num_rows());
            assert(values(CZ_2@).len() == self.C.num_rows());
        }

        T.clear();
        par_map_range_into(
            AZ_1.len(),
            |i: usize| -> (s: E::Scalar)
                requires
                    i < AZ_1@.len(),
                ensures
                    s.value() == cross_item(
                        m,
                        AZ_1@[i as int].value(),
                        BZ_1@[i as int].value(),
                        CZ_1@[i as int].value(),
                        U1.u.value(),
                        AZ_2@[i as int].value(),
                        BZ_2@[i as int].value(),
                        CZ_2@[i as int].value(),
                    )
                {
                    let AZ_1_circ_BZ_2 = AZ_1[i].mul(BZ_2[i]);
                    let AZ_2_circ_BZ_1 = AZ_2[i].mul(BZ_1[i]);
                    let u_1_cdot_Cz_2_plus_Cz_1 = U1.u.mul(CZ_2[i]).add(CZ_1[i]);
                    proof {
                        E::Scalar::lemma_residue(U1.u);
                        lemma_cross_item(
                            m,
                            AZ_1@[i as int].value(),
                            BZ_1@[i as int].value(),
                            CZ_1@[i as int].value(),
                            U1.u.value(),
                            AZ_2@[i as int].value(),
                            BZ_2@[i as int].value(),
                            CZ_2@[i as int].value(),
                        );
                    }
                    AZ_1_circ_BZ_2.add(AZ_2_circ_BZ_1).sub(u_1_cdot_Cz_2_plus_Cz_1)
                },
            T,
        );
        proof {
            let t = self.cross_term(
                self.A.num_rows(),
                values(W1.W@),
                U1.u.value(),
                values(U1.X@),
                values(W2.W@),
                values(U2.X@),
            );
            assert forall|i: int| 0 <= i < T@.len() implies values(T@)[i] == #[trigger] t[i] by {
                assert(values(AZ_1@)[i] == AZ_1@[i].value());
                assert(values(BZ_1@)[i] == BZ_1@[i].value());
                assert(values(CZ_1@)[i] == CZ_1@[i].value());
                assert(values(AZ_2@)[i] == AZ_2@[i].value());
                assert(values(BZ_2@)[i] == BZ_2@[i].value());
                assert(values(CZ_2@)[i] == CZ_2@[i].value());
                assert(T@[i].value() == values(T@)[i]);
            }
            assert(values(T@) =~= t);
        }

        Ok(CE::<E>::commit(ck, T))
    }
}

/// The two ways to compute an item of the cross-term agree.
proof fn lemma_cross_item(
    m: nat,
    a1: nat,
    b1: nat,
    c1: nat,
    u1: nat,
    a2: nat,
    b2: nat,
    c2: nat,
)
    requires
        m > 0,
    ensures
        ((((a1 * b2) % m + (a2 * b1) % m) % m - (u1 * c2) % m) % (m as int) - c1) % (m as int)
            == cross_item(m, a1, b1, c1, u1, a2, b2, c2),
        (((a1 * b2) % m + (a2 * b1) % m) % m - ((u1 * c2) % m + c1) % m) % (m as int)
            == cross_item(m, a1, b1, c1, u1, a2, b2, c2),
{
    let p = (a1 * b2) as int;
    let q = (a2 * b1) as int;
    let s = (u1 * c2) as int;
    let c = c1 as int;
    let d = m as int;
    lemma_add_mod_noop(p, q, d);
    lemma_mod_twice(s, d);
    lemma_mod_twice(p + q, d);
    lemma_congruent_sub(m, (p + q) % d, p + q, s % d, s);
    lemma_mod_twice(p + q - s, d);
    lemma_congruent_sub(m, ((p + q) % d - s % d) % d, p + q - s, c, c);
    lemma_congruent_add(m, s % d, s, c, c);
    lemma_mod_twice(s % d + c, d);
    lemma_congruent_sub(m, (p + q) % d, p + q, (s % d + c) % d, s + c);
}

/// An empty buffer for `commit_T_into`, with room for one item for every constraint. How much room
/// the allocator gives is not stated.
pub fn default_T<E: Engine>(shape: &R1CSShape<E>) -> (T: Vec<E::Scalar>)
    ensures
        T@ == Seq::<E::Scalar>::empty(),
{
    Vec::with_capacity(shape.num_cons)
}

} // verus!
