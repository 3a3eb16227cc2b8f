//! The scalar field of the Pallas curve, with the arithmetic of `pasta_curves`.
use crate::field::{law_le_bytes, le_bytes, le_value, Scalar};
use crate::traits::TranscriptReprTrait;
use ff::PrimeField;
use vstd::arithmetic::div_mod::lemma_small_mod;
use vstd::prelude::*;

verus! {

/// The order of the field.
pub open spec fn pallas_order() -> nat {
    0x40000000000000000000000000000000224698fc0994a8dd8c46eb2100000001nat
}

/// An element of the scalar field of the Pallas curve.
#[derive(Clone, Copy, Debug, PartialEq, Eq)]
pub struct PallasScalar {
    /// The bytes of the element's integer, least significant first.
    repr: [u8; 32],
}

/// `Fq::from` of `pasta_curves` gives the element of an integer, here with its bytes as
/// `to_repr` gives them, least significant first. An integer of 64 bits lies below the order.
#[verifier::external_body]
fn fq_from_u64(n: u64) -> (r: [u8; 32])
    ensures
        le_value(r@) == n,
{
    pasta_curves::Fq::from(n).to_repr()
}

/// `Fq::from_repr` of `pasta_curves` gives an element where and only where the bytes, least
/// significant first, stand for less than the order.
#[verifier::external_body]
fn fq_is_canonical(repr: [u8; 32]) -> (r: bool)
    ensures
        r == (le_value(repr@) < pallas_order()),
{
    pasta_curves::Fq::from_repr(repr).is_some().into()
}

/// `+` on `Fq` of `pasta_curves` adds modulo the order. `from_repr` and `to_repr` go from the bytes
/// to elements and back; `from_repr` gives no element for bytes that stand for the order or more.
#[verifier::external_body]
fn fq_add(a: [u8; 32], b: [u8; 32]) -> (r: [u8; 32])
    requires
        le_value(a@) < pallas_order(),
        le_value(b@) < pallas_order(),
    ensures
        le_value(r@) == (le_value(a@) + le_value(b@)) % pallas_order(),
{
    (pasta_curves::Fq::from_repr(a).unwrap() + pasta_curves::Fq::from_repr(b).unwrap()).to_repr()
}

/// `-` on `Fq` of `pasta_curves` subtracts modulo the order. The bytes are as for `fq_add`.
#[verifier::external_body]
fn fq_sub(a: [u8; 32], b: [u8; 32]) -> (r: [u8; 32])
    requires
        le_value(a@) < pallas_order(),
        le_value(b@) < pallas_order(),
    ensures
        le_value(r@) == (le_value(a@) - le_value(b@)) % (pallas_order() as int),
{
    (pasta_curves::Fq::from_repr(a).unwrap() - pasta_curves::Fq::from_repr(b).unwrap()).to_repr()
}

/// `*` on `Fq` of `pasta_curves` multiplies modulo the order. The bytes are as for `fq_add`.
#[verifier::external_body]
fn fq_mul(a: [u8; 32], b: [u8; 32]) -> (r: [u8; 32])
    requires
        le_value(a@) < pallas_order(),
        le_value(b@) < pallas_order(),
    ensures
        le_value(r@) == (le_value(a@) * le_value(b@)) % pallas_order(),
{
    (pasta_curves::Fq::from_repr(a).unwrap() * pasta_curves::Fq::from_repr(b).unwrap()).to_repr()
}

impl PallasScalar {
    #[verifier::type_invariant]
    spec fn canonical(self) -> bool {
        le_value(self.repr@) < pallas_order()
    }

    /// The bytes stand for the element's integer.
    fn repr(&self) -> (r: [u8; 32])
        ensures
            r == self.repr,
            le_value(r@) < pallas_order(),
            le_value(r@) == self.value(),
    {
        proof {
            use_type_invariant(self);
            lemma_small_mod(le_value(self.repr@), pallas_order());
        }
        self.repr
    }

    /// The element with bytes that stand for less than the order.
    fn from_canonical(repr: [u8; 32]) -> (r: Self)
        requires
            le_value(repr@) < pallas_order(),
        ensures
            r.value() == le_value(repr@),
    {
        proof {
            lemma_small_mod(le_value(repr@), pallas_order());
        }
        PallasScalar { repr }
    }
}

impl Scalar for PallasScalar {
    open spec fn modulus() -> nat {
        pallas_order()
    }

    closed spec fn value(&self) -> nat {
        le_value(self.repr@) % pallas_order()
    }

    proof fn lemma_residue(x: Self) {
    }

    fn zero() -> (r: Self) {
        Self::from_canonical(fq_from_u64(0))
    }

    fn one() -> (r: Self) {
        Self::from_canonical(fq_from_u64(1))
    }

    fn from_u64(n: u64) -> (r: Self)
        ensures
            r.value() == n,
    {
        proof {
            lemma_small_mod(n as nat, pallas_order());
        }
        Self::from_canonical(fq_from_u64(n))
    }

    fn add(self, other: Self) -> (r: Self) {
        Self::from_canonical(fq_add(self.repr(), other.repr()))
    }

    fn sub(self, other: Self) -> (r: Self) {
        Self::from_canonical(fq_sub(self.repr(), other.repr()))
    }

    fn mul(self, other: Self) -> (r: Self) {
        Self::from_canonical(fq_mul(self.repr(), other.repr()))
    }

    fn equals(&self, other: &Self) -> (r: bool) {
        let a = self.repr();
        let b = other.repr();
        proof {
            law_le_bytes(a@);
            law_le_bytes(b@);
        }
        let mut i: usize = 0;
        while i < 32
            invariant
                i <= 32,
                forall|j: int| 0 <= j < i ==> a@[j] == b@[j],
                le_bytes(le_value(a@), 32) == a@,
                le_bytes(le_value(b@), 32) == b@,
                le_value(a@) == self.value(),
                le_value(b@) == other.value(),
            decreases 32 - i,
        {
            if a[i] != b[i] {
                return false;
            }
            i += 1;
        }
        assert(a@ =~= b@);
        true
    }

    fn to_repr(&self) -> (r: [u8; 32]) {
        self.repr()
    }

    fn from_repr(repr: [u8; 32]) -> (r: Option<Self>) {
        if fq_is_canonical(repr) {
            Some(Self::from_canonical(repr))
        } else {
            None
        }
    }
}

impl TranscriptReprTrait for PallasScalar {
    /// The bytes of the element's integer, least significant first.
    open spec fn transcript_bytes(&self) -> Seq<u8> {
        le_bytes(self.value(), 32)
    }

    fn to_transcript_bytes(&self) -> (r: Vec<u8>) {
        let repr = self.repr();
        proof {
            law_le_bytes(repr@);
        }
        let mut r: Vec<u8> = Vec::with_capacity(32);
        let mut i: usize = 0;
        while i < 32
            invariant
                i <= 32,
                r@ == repr@.take(i as int),
            decreases 32 - i,
        {
            r.push(repr[i]);
            i += 1;
        }
        assert(repr@.take(32) =~= repr@);
        r
    }
}

} // verus!
