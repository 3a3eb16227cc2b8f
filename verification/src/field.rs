//! Prime field elements as residues, and the arithmetic of residues that the contracts use.
use vstd::arithmetic::div_mod::*;
use vstd::arithmetic::mul::*;
use vstd::prelude::*;

verus! {

/// An element of a field of prime order, seen as an integer modulo that order.
pub trait Scalar: Sized + Copy + Send + Sync + core::fmt::Debug + PartialEq + Eq {
    /// The order of the field.
    spec fn modulus() -> nat;

    /// The integer below the order that the element stands for.
    spec fn value(&self) -> nat;

    /// Every element stands for an integer below the order, and 0 and 1 are different.
    proof fn lemma_residue(x: Self)
        ensures
            x.value() < Self::modulus(),
            2 <= Self::modulus(),
    ;

    /// The element 0.
    fn zero() -> (r: Self)
        ensures
            r.value() == 0,
    ;

    /// The element 1.
    fn one() -> (r: Self)
        ensures
            r.value() == 1,
    ;

    /// The element that an integer is congruent to.
    fn from_u64(n: u64) -> (r: Self)
        ensures
            r.value() == n as nat % Self::modulus(),
    ;

    /// The sum of two elements.
    fn add(self, other: Self) -> (r: Self)
        ensures
            r.value() == (self.value() + other.value()) % Self::modulus(),
    ;

    /// The difference of two elements.
    fn sub(self, other: Self) -> (r: Self)
        ensures
            r.value() == (self.value() - other.value()) % (Self::modulus() as int),
    ;

    /// The product of two elements.
    fn mul(self, other: Self) -> (r: Self)
        ensures
            r.value() == (self.value() * other.value()) % Self::modulus(),
    ;

    /// Whether two elements are the same.
    fn equals(&self, other: &Self) -> (r: bool)
        ensures
            r == (self.value() == other.value()),
    ;

    /// The bytes of the element's integer, least significant first.
    fn to_repr(&self) -> (r: [u8; 32])
        ensures
            le_value(r@) == self.value(),
    ;

    /// The element with the given bytes; `None` where they stand for the order or more.
    fn from_repr(repr: [u8; 32]) -> (r: Option<Self>)
        ensures
            r is Some <==> le_value(repr@) < Self::modulus(),
            r matches Some(x) ==> x.value() == le_value(repr@),
    ;
}

/// The integer that bytes stand for, least significant first.
pub open spec fn le_value(bytes: Seq<u8>) -> nat
    decreases bytes.len(),
{
    if bytes.len() == 0 {
        0
    } else {
        bytes[0] as nat + 256 * le_value(bytes.drop_first())
    }
}

/// The bytes of an integer, least significant first, as many as asked for.
pub open spec fn le_bytes(n: nat, count: nat) -> Seq<u8>
    decreases count,
{
    if count == 0 {
        Seq::empty()
    } else {
        seq![(n % 256) as u8] + le_bytes(n / 256, (count - 1) as nat)
    }
}

/// Bytes are the bytes of the integer that they stand for.
pub proof fn law_le_bytes(bytes: Seq<u8>)
    ensures
        le_bytes(le_value(bytes), bytes.len()) == bytes,
    decreases bytes.len(),
{
    if bytes.len() == 0 {
        assert(le_bytes(le_value(bytes), bytes.len()) =~= bytes);
    } else {
        let n = le_value(bytes);
        law_le_bytes(bytes.drop_first());
        assert(n % 256 == bytes[0] && n / 256 == le_value(bytes.drop_first()));
        assert(seq![bytes[0]] + bytes.drop_first() =~= bytes);
    }
}

/// The integers that elements stand for.
pub open spec fn values<S: Scalar>(elements: Seq<S>) -> Seq<nat> {
    Seq::new(elements.len(), |i: int| elements[i].value())
}

/// All items lie below the modulus.
pub open spec fn are_residues(m: nat, v: Seq<nat>) -> bool {
    forall|i: int| 0 <= i < v.len() ==> #[trigger] v[i] < m
}

/// The integers that elements stand for lie below the order.
pub(crate) proof fn lemma_values_are_residues<S: Scalar>(elements: Seq<S>)
    ensures
        are_residues(S::modulus(), values(elements)),
{
    assert forall|i: int| 0 <= i < elements.len() implies #[trigger] values(elements)[i]
        < S::modulus() by {
        S::lemma_residue(elements[i]);
    }
}

/// The residue of an integer.
pub open spec fn residue(m: nat, a: int) -> nat {
    (a % (m as int)) as nat
}

/// As many zeros as asked for.
pub open spec fn zeros(n: nat) -> Seq<nat> {
    Seq::new(n, |i: int| 0nat)
}

/// The combination `a + r * b` of two vectors of residues, as long as the shorter of them.
pub open spec fn combine(m: nat, a: Seq<nat>, r: nat, b: Seq<nat>) -> Seq<nat> {
    Seq::new(
        if a.len() <= b.len() {
            a.len()
        } else {
            b.len()
        },
        |i: int| residue(m, (a[i] + r * b[i]) as int),
    )
}

/// Computes `a + r * b`.
pub fn combine_elements<S: Scalar>(a: S, r: S, b: S) -> (s: S)
    ensures
        s.value() == residue(S::modulus(), (a.value() + r.value() * b.value()) as int),
{
    proof {
        S::lemma_residue(a);
        lemma_add_mod_noop_right(
            a.value() as int,
            (r.value() * b.value()) as int,
            S::modulus() as int,
        );
    }
    a.add(r.mul(b))
}

/// A vector of the given length that holds one element throughout.
pub(crate) fn filled<T: Copy>(x: T, n: usize) -> (r: Vec<T>)
    ensures
        r@ == Seq::new(n as nat, |i: int| x),
{
    let mut r: Vec<T> = Vec::with_capacity(n);
    let mut i: usize = 0;
    while i < n
        invariant
            i <= n,
            r@ == Seq::new(i as nat, |j: int| x),
        decreases n - i,
    {
        r.push(x);
        i += 1;
    }
    r
}

/// A vector with the items of a slice.
pub(crate) fn copied<T: Copy>(items: &[T]) -> (r: Vec<T>)
    ensures
        r@ == items@,
{
    let mut r: Vec<T> = Vec::with_capacity(items.len());
    let mut i: usize = 0;
    while i < items.len()
        invariant
            i <= items@.len(),
            r@ == items@.take(i as int),
        decreases items@.len() - i,
    {
        r.push(items[i]);
        i += 1;
    }
    r
}

/// Two integers are congruent where they leave the same remainder.
pub open spec fn congruent(m: nat, a: int, b: int) -> bool {
    a % (m as int) == b % (m as int)
}

pub(crate) proof fn lemma_residue_congruent(m: nat, a: int)
    requires
        m > 0,
    ensures
        congruent(m, a % (m as int), a),
        0 <= a % (m as int) < m,
{
    lemma_mod_twice(a, m as int);
}

pub(crate) proof fn lemma_congruent_add(m: nat, a: int, b: int, c: int, d: int)
    requires
        m > 0,
        congruent(m, a, b),
        congruent(m, c, d),
    ensures
        congruent(m, a + c, b + d),
{
    lemma_add_mod_noop(a, c, m as int);
    lemma_add_mod_noop(b, d, m as int);
}

pub(crate) proof fn lemma_congruent_sub(m: nat, a: int, b: int, c: int, d: int)
    requires
        m > 0,
        congruent(m, a, b),
        congruent(m, c, d),
    ensures
        congruent(m, a - c, b - d),
{
    lemma_sub_mod_noop(a, c, m as int);
    lemma_sub_mod_noop(b, d, m as int);
}

pub(crate) proof fn lemma_congruent_mul(m: nat, a: int, b: int, c: int, d: int)
    requires
        m > 0,
        congruent(m, a, b),
        congruent(m, c, d),
    ensures
        congruent(m, a * c, b * d),
{
    lemma_mul_mod_noop(a, c, m as int);
    lemma_mul_mod_noop(b, d, m as int);
}

} // verus!
