//! What an engine brings along: its fields, its commitments and its random oracle.
use crate::field::{values, Scalar};
use vstd::prelude::*;

verus! {

/// A random oracle that takes in elements of one field.
pub trait ROTrait: Sized {
    /// The field whose elements the oracle takes in.
    type Base: Scalar;

    /// The elements taken in so far.
    spec fn absorbed(&self) -> Seq<nat>;

    /// Takes in one more element.
    fn absorb(&mut self, e: Self::Base)
        ensures
            final(self).absorbed() == old(self).absorbed().push(e.value()),
    ;
}

/// A value that a random oracle can take in.
pub trait AbsorbInROTrait<R: ROTrait> {
    /// The elements that stand for the value.
    spec fn ro_elements(&self) -> Seq<nat>;

    /// Has the oracle take in the value.
    fn absorb_in_ro(&self, ro: &mut R)
        ensures
            final(ro).absorbed() == old(ro).absorbed() + self.ro_elements(),
    ;
}

/// A value that can be written into a transcript.
pub trait TranscriptReprTrait {
    /// The bytes that stand for the value.
    spec fn transcript_bytes(&self) -> Seq<u8>;

    /// Writes the value for a transcript.
    fn to_transcript_bytes(&self) -> (r: Vec<u8>)
        ensures
            r@ == self.transcript_bytes(),
    ;
}

/// A commitment, which stands for an element of a group on which scalars act.
pub trait CommitmentTrait<S: Scalar>:
    Sized + Copy + Send + Sync + core::fmt::Debug + PartialEq + Eq
{
    /// The group element, by a number that it alone has.
    spec fn element(&self) -> int;

    /// The neutral element of the group.
    spec fn neutral() -> int;

    /// The sum of two group elements.
    spec fn sum(a: int, b: int) -> int;

    /// A group element times a scalar.
    spec fn scaled(a: int, s: nat) -> int;

    /// The commitment that stands for the neutral element.
    fn identity() -> (r: Self)
        ensures
            r.element() == Self::neutral(),
    ;

    /// The sum of two commitments.
    fn add(self, other: Self) -> (r: Self)
        ensures
            r.element() == Self::sum(self.element(), other.element()),
    ;

    /// A commitment times a scalar.
    fn mul(self, s: S) -> (r: Self)
        ensures
            r.element() == Self::scaled(self.element(), s.value()),
    ;

    /// Whether two commitments stand for the same group element.
    fn equals(&self, other: &Self) -> (r: bool)
        ensures
            r == (self.element() == other.element()),
    ;
}

/// A scheme of commitments to vectors of scalars.
pub trait CommitmentEngineTrait<S: Scalar, R: ROTrait> {
    /// The generators that a commitment is made with.
    type CommitmentKey: Send + Sync;

    /// What the scheme commits with.
    type Commitment: CommitmentTrait<S> + AbsorbInROTrait<R> + TranscriptReprTrait;

    /// Whether a key can come out of a setup from the given label and number of generators.
    spec fn is_setup(label: Seq<u8>, n: nat, ck: Self::CommitmentKey) -> bool;

    /// The length of the longest vector that a key can commit to.
    spec fn capacity(ck: Self::CommitmentKey) -> nat;

    /// The group element of the commitment to a vector.
    spec fn committed(ck: Self::CommitmentKey, v: Seq<nat>) -> int;

    /// Makes a key with at least `n` generators from a label.
    fn setup(label: &[u8], n: usize) -> (ck: Self::CommitmentKey)
        ensures
            Self::is_setup(label@, n as nat, ck),
            Self::capacity(ck) >= n,
    ;

    /// Commits to a vector.
    fn commit(ck: &Self::CommitmentKey, v: &[S]) -> (c: Self::Commitment)
        requires
            v@.len() <= Self::capacity(*ck),
        ensures
            c.element() == Self::committed(*ck, values(v@)),
    ;
}

/// What the library works over: a scalar field, a base field, a random oracle that takes in
/// elements of the latter, and a commitment scheme for vectors of the former.
pub trait Engine: Sized + Copy + core::fmt::Debug + PartialEq + Eq {
    /// The field of the constraint systems.
    type Scalar: Scalar + TranscriptReprTrait;

    /// The field of the random oracle.
    type Base: Scalar;

    /// The random oracle.
    type RO: ROTrait<Base = Self::Base>;

    /// The commitment scheme.
    type CE: CommitmentEngineTrait<Self::Scalar, Self::RO>;
}

/// The commitment scheme of an engine.
pub type CE<E> = <E as Engine>::CE;

/// The commitments of an engine.
pub type Commitment<E> = <<E as Engine>::CE as CommitmentEngineTrait<
    <E as Engine>::Scalar,
    <E as Engine>::RO,
>>::Commitment;

/// The commitment keys of an engine.
pub type CommitmentKey<E> = <<E as Engine>::CE as CommitmentEngineTrait<
    <E as Engine>::Scalar,
    <E as Engine>::RO,
>>::CommitmentKey;

} // verus!
