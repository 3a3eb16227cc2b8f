//! Scalars as integers: their limbs, and the elements of another field that they are congruent to.
use crate::field::{le_value, residue, Scalar};
use vstd::arithmetic::div_mod::*;
use vstd::arithmetic::mul::*;
use vstd::arithmetic::power2::*;
use vstd::prelude::*;

verus! {

/// The number of bits of a limb.
pub const BN_LIMB_WIDTH: usize = 64;

/// The number of limbs of a scalar.
pub const BN_N_LIMBS: usize = 4;

/// The limbs of an integer, least significant first.
pub open spec fn limbs(n: nat, count: nat) -> Seq<nat>
    decreases count,
{
    if count == 0 {
        Seq::empty()
    } else {
        seq![n % pow2(BN_LIMB_WIDTH as nat)] + limbs(
            n / pow2(BN_LIMB_WIDTH as nat),
            (count - 1) as nat,
        )
    }
}

/// The integer that limbs stand for, least significant first.
pub open spec fn limbs_value(l: Seq<nat>) -> nat
    decreases l.len(),
{
    if l.len() == 0 {
        0
    } else {
        l[0] + pow2(BN_LIMB_WIDTH as nat) * limbs_value(l.drop_first())
    }
}

/// The limbs of an integer stand for that integer, where there are enough of them, and each is
/// below 2 to the width of a limb.
pub proof fn law_limbs(n: nat, count: nat)
    requires
        n < pow2(BN_LIMB_WIDTH as nat * count),
    ensures
        limbs(n, count).len() == count,
        limbs_value(limbs(n, count)) == n,
        forall|i: int|
            0 <= i < count ==> #[trigger] limbs(n, count)[i] < pow2(BN_LIMB_WIDTH as nat),
    decreases count,
{
    let p = pow2(BN_LIMB_WIDTH as nat);
    lemma_pow2_pos(BN_LIMB_WIDTH as nat);
    if count == 0 {
        lemma2_to64();
    } else {
        let rest = (count - 1) as nat;
        let q = n / p;
        lemma_pow2_adds(BN_LIMB_WIDTH as nat, BN_LIMB_WIDTH as nat * rest);
        assert(BN_LIMB_WIDTH as nat * count == BN_LIMB_WIDTH as nat + BN_LIMB_WIDTH as nat * rest);
        lemma_fundamental_div_mod(n as int, p as int);
        let top = pow2(BN_LIMB_WIDTH as nat * rest);
        assert(q < top) by (nonlinear_arith)
            requires
                n < p * top,
                n == p * q + n % p,
                p > 0,
                n % p >= 0,
        ;
        law_limbs(q, rest);
        let l = limbs(n, count);
        assert(l.drop_first() =~= limbs(q, rest));
        assert(l[0] == n % p);
        assert forall|i: int| 0 <= i < count implies #[trigger] l[i] < p by {
            if i > 0 {
                assert(l[i] == limbs(q, rest)[i - 1]);
            }
        }
    }
}

/// The first `k` bytes stand for less than 2 to the `8 * k`, and the others for the multiple of
/// that power.
proof fn lemma_le_value_split(bytes: Seq<u8>, k: nat)
    requires
        k <= bytes.len(),
    ensures
        le_value(bytes) == le_value(bytes.take(k as int)) + pow2(8 * k) * le_value(
            bytes.skip(k as int),
        ),
        le_value(bytes.take(k as int)) < pow2(8 * k),
    decreases k,
{
    if k == 0 {
        lemma2_to64();
        assert(bytes.skip(0) =~= bytes);
        assert(bytes.take(0).len() == 0);
        assert(pow2(8 * k) == 1);
        lemma_mul_basics_3(le_value(bytes) as int);
    } else {
        let rest = bytes.drop_first();
        let j = (k - 1) as nat;
        lemma_le_value_split(rest, j);
        assert(bytes.take(k as int).drop_first() =~= rest.take(j as int));
        assert(rest.skip(j as int) =~= bytes.skip(k as int));
        lemma_pow2_adds(8, 8 * j);
        lemma2_to64();
        assert(pow2(8 * k) == 256 * pow2(8 * j));
        let low = le_value(rest.take(j as int));
        let high = le_value(bytes.skip(k as int));
        let p = pow2(8 * j);
        assert(256 * (low + p * high) == 256 * low + (256 * p) * high) by (nonlinear_arith);
        assert(bytes.take(k as int)[0] == bytes[0]);
        assert(le_value(bytes) == bytes[0] as nat + 256 * low + pow2(8 * k) * high);
    }
}

/// The integer that eight bytes stand for.
fn limb_at(repr: &[u8; 32], start: usize) -> (r: u64)
    requires
        start + 8 <= 32,
    ensures
        r == le_value(repr@.subrange(start as int, start + 8)),
{
    let ghost part = repr@.subrange(start as int, start + 8);
    let mut r: u64 = 0;
    let mut k: usize = 8;
    proof {
        assert(part.skip(8).len() == 0);
        lemma2_to64();
    }
    while k > 0
        invariant
            k <= 8,
            start + 8 <= 32,
            part == repr@.subrange(start as int, start + 8),
            r == le_value(part.skip(k as int)),
            r < pow2((8 * (8 - k)) as nat),
        decreases k,
    {
        k -= 1;
        proof {
            assert(part.skip(k as int).drop_first() =~= part.skip(k + 1));
            assert(part.skip(k as int)[0] == repr@[start + k]);
            lemma_pow2_adds(8, (8 * (7 - k)) as nat);
            lemma2_to64();
            lemma2_to64_rest();
            assert(8 + 8 * (7 - k) == 8 * (8 - k));
            if k > 0 {
                lemma_pow2_strictly_increases((8 * (8 - k)) as nat, 64);
            }
        }
        r = r * 256 + repr[start + k] as u64;
    }
    assert(part.skip(0) =~= part);
    r
}

/// The limbs of a scalar, as scalars.
pub fn scalar_limbs<S: Scalar>(x: &S) -> (r: Vec<S>)
    ensures
        r@.len() == BN_N_LIMBS,
        forall|i: int|
            0 <= i < BN_N_LIMBS ==> (#[trigger] r@[i]).value() == residue(
                S::modulus(),
                limbs(x.value(), BN_N_LIMBS as nat)[i] as int,
            ),
{
    let repr = x.to_repr();
    let l0 = limb_at(&repr, 0);
    let l1 = limb_at(&repr, 8);
    let l2 = limb_at(&repr, 16);
    let l3 = limb_at(&repr, 24);
    proof {
        reveal_with_fuel(limbs, 5);
        lemma_limb(repr@, 0);
        lemma_limb(repr@, 8);
        lemma_limb(repr@, 16);
        lemma_limb(repr@, 24);
        assert(repr@.skip(0) =~= repr@);
        S::lemma_residue(*x);
    }
    let mut r: Vec<S> = Vec::with_capacity(BN_N_LIMBS);
    r.push(S::from_u64(l0));
    r.push(S::from_u64(l1));
    r.push(S::from_u64(l2));
    r.push(S::from_u64(l3));
    r
}

/// The first eight bytes are the remainder by 2 to the 64, and the others the quotient.
proof fn lemma_limb(bytes: Seq<u8>, start: int)
    requires
        0 <= start,
        start + 8 <= bytes.len(),
    ensures
        le_value(bytes.skip(start)) % pow2(64) == le_value(bytes.subrange(start, start + 8)),
        le_value(bytes.skip(start)) / pow2(64) == le_value(bytes.skip(start + 8)),
{
    let s = bytes.skip(start);
    lemma_le_value_split(s, 8);
    assert(s.take(8) =~= bytes.subrange(start, start + 8));
    assert(s.skip(8) =~= bytes.skip(start + 8));
    let (low, high) = (le_value(s.take(8)), le_value(s.skip(8)));
    assert(le_value(s) == high * pow2(64) + low) by {
        lemma_mul_is_commutative(high as int, pow2(64) as int);
    }
    lemma_pow2_pos(64);
    lemma_fundamental_div_mod_converse(
        le_value(s) as int,
        pow2(64) as int,
        le_value(s.skip(8)) as int,
        le_value(s.take(8)) as int,
    );
}

/// The element of one field that the integer of an element of another field is congruent to.
pub fn scalar_as_base<S: Scalar, B: Scalar>(x: &S) -> (r: B)
    ensures
        r.value() == residue(B::modulus(), x.value() as int),
{
    let repr = x.to_repr();
    let base = B::from_u64(256);
    let mut r = B::zero();
    let mut k: usize = 32;
    proof {
        B::lemma_residue(r);
        lemma_small_mod(0, B::modulus());
        assert(repr@.skip(32).len() == 0);
    }
    while k > 0
        invariant
            k <= 32,
            base.value() == 256nat % B::modulus(),
            r.value() == le_value(repr@.skip(k as int)) % B::modulus(),
        decreases k,
    {
        k -= 1;
        let byte = repr[k];
        proof {
            let m = B::modulus() as int;
            B::lemma_residue(r);
            assert(repr@.skip(k as int).drop_first() =~= repr@.skip(k + 1));
            assert(repr@.skip(k as int)[0] == byte);
            let high = le_value(repr@.skip(k + 1)) as int;
            lemma_mul_mod_noop(high, 256, m);
            lemma_add_mod_noop(high * 256, byte as int, m);
        }
        r = r.mul(base).add(B::from_u64(byte as u64));
    }
    proof {
        assert(repr@.skip(0) =~= repr@);
        B::lemma_residue(r);
    }
    r
}

/// A limb is a part of the integer.
pub(crate) proof fn lemma_limb_at(n: nat, count: nat, j: nat)
    requires
        j < count,
    ensures
        limbs(n, count).len() == count,
        limbs(n, count)[j as int] == (n / pow2(64 * j)) % pow2(64),
    decreases count,
{
    let p = pow2(64);
    let rest = limbs(n / p, (count - 1) as nat);
    lemma_pow2_pos(64);
    lemma_limbs_len(n / p, (count - 1) as nat);
    assert(limbs(n, count) == seq![n % p] + rest);
    if j == 0 {
        lemma2_to64();
        assert(pow2(64 * j) == 1);
        lemma_div_basics(n as int);
    } else {
        let k = (j - 1) as nat;
        lemma_limb_at(n / p, (count - 1) as nat, k);
        assert(limbs(n, count)[j as int] == rest[k as int]);
        lemma_pow2_pos(64 * k);
        lemma_pow2_adds(64, 64 * k);
        assert(64 + 64 * k == 64 * j);
        lemma_div_denominator(n as int, p as int, pow2(64 * k) as int);
    }
}

/// There are as many limbs as asked for.
pub(crate) proof fn lemma_limbs_len(n: nat, count: nat)
    ensures
        limbs(n, count).len() == count,
    decreases count,
{
    if count > 0 {
        lemma_pow2_pos(BN_LIMB_WIDTH as nat);
        let rest = limbs(n / pow2(BN_LIMB_WIDTH as nat), (count - 1) as nat);
        lemma_limbs_len(n / pow2(BN_LIMB_WIDTH as nat), (count - 1) as nat);
        assert(limbs(n, count) == seq![n % pow2(BN_LIMB_WIDTH as nat)] + rest);
    }
}

/// The limbs that a scalar is split into are its 64-bit parts, from the least significant one on,
/// each as a scalar.
pub proof fn law_limbs_are_parts<S: Scalar>(x: S, r: Vec<S>)
    requires
        call_ensures(scalar_limbs::<S>, (&x,), r),
    ensures
        r@.len() == 4,
        forall|j: nat|
            #![trigger pow2(64 * j)]
            j < 4 ==> r@[j as int].value() == (x.value() / pow2(64 * j)) % pow2(64)
                % S::modulus(),
{
    S::lemma_residue(x);
    assert forall|j: nat|
        #![trigger pow2(64 * j)]
        j < 4 implies r@[j as int].value() == (x.value() / pow2(64 * j)) % pow2(64)
        % S::modulus() by {
        lemma_limb_at(x.value(), BN_N_LIMBS as nat, j);
        assert(r@[j as int].value() == residue(
            S::modulus(),
            limbs(x.value(), BN_N_LIMBS as nat)[j as int] as int,
        ));
    }
}

/// A scalar becomes the element of the base field that its integer leaves as a remainder.
pub proof fn law_scalar_reduces_into_base<S: Scalar, B: Scalar>(x: S, r: B)
    requires
        call_ensures(scalar_as_base::<S, B>, (&x,), r),
    ensures
        r.value() == x.value() % B::modulus(),
{
    B::lemma_residue(r);
}

} // verus!
