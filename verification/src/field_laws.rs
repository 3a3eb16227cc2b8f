//! What calls of the operations on scalars give.
use crate::field::{combine_elements, law_le_bytes, le_bytes, le_value, Scalar};
use crate::pallas::PallasScalar;
use crate::traits::TranscriptReprTrait;
use vstd::arithmetic::div_mod::*;
use vstd::arithmetic::power2::*;
use vstd::prelude::*;

verus! {

/// Sums, differences and products are those of the integers modulo the order, which lies above
/// every result; an integer becomes its remainder; 0 and 1 are neutral; and elements are the same
/// where their integers are.
pub proof fn law_field_operations<S: Scalar>(
    a: S,
    b: S,
    n: u64,
    sum: S,
    difference: S,
    product: S,
    zero: S,
    one: S,
    from: S,
    same: bool,
)
    requires
        call_ensures(S::add, (a, b), sum),
        call_ensures(S::sub, (a, b), difference),
        call_ensures(S::mul, (a, b), product),
        call_ensures(S::zero, (), zero),
        call_ensures(S::one, (), one),
        call_ensures(S::from_u64, (n,), from),
        call_ensures(S::equals, (&a, &b), same),
    ensures
        sum.value() < S::modulus(),
        (sum.value() - a.value() - b.value()) % (S::modulus() as int) == 0,
        difference.value() < S::modulus(),
        (difference.value() + b.value() - a.value()) % (S::modulus() as int) == 0,
        product.value() < S::modulus(),
        (product.value() - a.value() * b.value()) % (S::modulus() as int) == 0,
        zero.value() == 0,
        one.value() == 1,
        from.value() < S::modulus(),
        (from.value() - n) % (S::modulus() as int) == 0,
        same <==> a.value() == b.value(),
{
    let m = S::modulus() as int;
    S::lemma_residue(sum);
    S::lemma_residue(difference);
    S::lemma_residue(product);
    S::lemma_residue(from);
    let (x, y) = (a.value() as int, b.value() as int);
    lemma_mod_twice(x + y, m);
    lemma_mod_equivalence(sum.value() as int, x + y, m);
    lemma_mod_twice(x - y, m);
    lemma_mod_equivalence(difference.value() as int, x - y, m);
    lemma_mod_twice(x * y, m);
    lemma_mod_equivalence(product.value() as int, x * y, m);
    lemma_mod_twice(n as int, m);
    lemma_mod_equivalence(from.value() as int, n as int, m);
}

/// The combination of an element and a multiple is their sum modulo the order.
pub proof fn law_combination<S: Scalar>(a: S, r: S, b: S, s: S)
    requires
        call_ensures(combine_elements::<S>, (a, r, b), s),
    ensures
        s.value() < S::modulus(),
        (s.value() - a.value() - r.value() * b.value()) % (S::modulus() as int) == 0,
{
    let m = S::modulus() as int;
    S::lemma_residue(s);
    let t = (a.value() + r.value() * b.value()) as int;
    lemma_mod_twice(t, m);
    lemma_mod_equivalence(s.value() as int, t, m);
}

/// A byte of an integer is a part of it.
proof fn lemma_byte_at(n: nat, count: nat, j: nat)
    requires
        j < count,
    ensures
        le_bytes(n, count).len() == count,
        le_bytes(n, count)[j as int] == (n / pow2(8 * j)) % 256,
    decreases count,
{
    lemma_bytes_len(n / 256, (count - 1) as nat);
    let rest = le_bytes(n / 256, (count - 1) as nat);
    lemma2_to64();
    if j == 0 {
        lemma_div_basics(n as int);
    } else {
        let k = (j - 1) as nat;
        lemma_byte_at(n / 256, (count - 1) as nat, k);
        assert(le_bytes(n, count)[j as int] == rest[k as int]);
        lemma_pow2_pos(8 * k);
        lemma_pow2_adds(8, 8 * k);
        assert(8 + 8 * k == 8 * j);
        lemma_div_denominator(n as int, 256, pow2(8 * k) as int);
    }
}

proof fn lemma_bytes_len(n: nat, count: nat)
    ensures
        le_bytes(n, count).len() == count,
    decreases count,
{
    if count > 0 {
        lemma_bytes_len(n / 256, (count - 1) as nat);
    }
}

/// An integer with no more bits than its bytes have is what the bytes stand for.
proof fn lemma_value_of_bytes(n: nat, count: nat)
    requires
        n < pow2(8 * count),
    ensures
        le_value(le_bytes(n, count)) == n,
    decreases count,
{
    lemma2_to64();
    lemma_bytes_len(n, count);
    if count > 0 {
        let k = (count - 1) as nat;
        lemma_pow2_adds(8, 8 * k);
        assert(8 + 8 * k == 8 * count);
        let p = pow2(8 * k);
        assert(n / 256 < p) by (nonlinear_arith)
            requires
                n < 256 * p,
        ;
        lemma_value_of_bytes(n / 256, k);
        assert(le_bytes(n, count).drop_first() =~= le_bytes(n / 256, k));
    }
}

/// The bytes of an element are the bytes of its integer, least significant first.
pub proof fn law_bytes_of_an_element<S: Scalar>(x: S, repr: [u8; 32])
    requires
        call_ensures(S::to_repr, (&x,), repr),
    ensures
        forall|j: nat|
            #![trigger pow2(8 * j)]
            j < 32 ==> repr@[j as int] == (x.value() / pow2(8 * j)) % 256,
{
    law_le_bytes(repr@);
    assert forall|j: nat|
        #![trigger pow2(8 * j)]
        j < 32 implies repr@[j as int] == (x.value() / pow2(8 * j)) % 256 by {
        lemma_byte_at(x.value(), 32, j);
    }
}

/// The bytes of an integer, least significant first, give the element of the integer where and only
/// where the integer lies below the order.
pub proof fn law_element_of_bytes<S: Scalar>(n: nat, repr: [u8; 32], r: Option<S>)
    requires
        n < pow2(256),
        forall|j: nat|
            #![trigger pow2(8 * j)]
            j < 32 ==> repr@[j as int] == (n / pow2(8 * j)) % 256,
        call_ensures(S::from_repr, (repr,), r),
    ensures
        r is Some <==> n < S::modulus(),
        r matches Some(x) ==> x.value() == n,
{
    lemma_bytes_len(n, 32);
    assert forall|i: int| 0 <= i < 32 implies repr@[i] == le_bytes(n, 32)[i] by {
        let j = i as nat;
        assert(repr@[j as int] == (n / pow2(8 * j)) % 256);
        lemma_byte_at(n, 32, j);
    }
    assert(repr@ =~= le_bytes(n, 32));
    lemma_value_of_bytes(n, 32);
}

/// What is written of a Pallas scalar are the 32 bytes of its integer, least significant first.
pub proof fn law_written_pallas_scalar(x: PallasScalar, bytes: Vec<u8>)
    requires
        call_ensures(<PallasScalar as TranscriptReprTrait>::to_transcript_bytes, (&x,), bytes),
    ensures
        bytes@.len() == 32,
        forall|j: nat|
            #![trigger pow2(8 * j)]
            j < 32 ==> bytes@[j as int] == (x.value() / pow2(8 * j)) % 256,
{
    lemma_bytes_len(x.value(), 32);
    assert forall|j: nat|
        #![trigger pow2(8 * j)]
        j < 32 implies bytes@[j as int] == (x.value() / pow2(8 * j)) % 256 by {
        lemma_byte_at(x.value(), 32, j);
    }
}

} // verus!
