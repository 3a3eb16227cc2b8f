//! Public parameters of an R1CS.
use super::padding::larger;
use super::shape::R1CSShape;
use crate::traits::{CommitmentEngineTrait, CommitmentKey, Engine, CE};
use core::marker::PhantomData;
use vstd::prelude::*;

verus! {

/// Public parameters for a given R1CS.
pub struct R1CS<E: Engine> {
    /// The engine.
    pub _p: PhantomData<E>,
}

impl<E: Engine> Clone for R1CS<E> {
    fn clone(&self) -> (r: Self)
        ensures
            r == *self,
    {
        R1CS { _p: self._p }
    }
}

/// A function that gives a floor for the number of generators.
pub type CommitmentKeyHint<E> = dyn Fn(&R1CSShape<E>) -> usize;

/// The label that the generators are made from, which reads `ck`.
pub open spec fn ck_label() -> Seq<u8> {
    seq![99u8, 107u8]
}

impl<E: Engine> R1CS<E> {
    /// The number of generators for a shape and a floor: the largest of the number of constraints,
    /// the number of variables and the floor.
    pub open spec fn num_generators(S: R1CSShape<E>, floor: usize) -> nat {
        let a = if S.num_cons >= S.num_vars {
            S.num_cons
        } else {
            S.num_vars
        };
        if a >= floor {
            a as nat
        } else {
            floor as nat
        }
    }

    /// Generates public parameters for a Rank-1 Constraint System (R1CS): a key with a generator
    /// for every constraint and for every variable, and with no fewer generators than `ck_floor`
    /// asks for.
    pub fn commitment_key<F: Fn(&R1CSShape<E>) -> usize + ?Sized>(
        S: &R1CSShape<E>,
        ck_floor: &F,
    ) -> (ck: CommitmentKey<E>)
        requires
            ck_floor.requires((S,)),
        ensures
            exists|floor: usize|
                #[trigger] ck_floor.ensures((S,), floor) && CE::<E>::is_setup(
                    ck_label(),
                    Self::num_generators(*S, floor),
                    ck,
                ) && CE::<E>::capacity(ck) >= Self::num_generators(*S, floor),
            CE::<E>::capacity(ck) >= S.num_cons,
            CE::<E>::capacity(ck) >= S.num_vars,
    {
        let ck_hint = ck_floor(S);
        let label = [99u8, 107u8];
        assert(label@ =~= ck_label());
        CE::<E>::setup(&label, larger(larger(S.num_cons, S.num_vars), ck_hint))
    }
}

} // verus!
