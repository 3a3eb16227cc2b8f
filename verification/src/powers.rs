//! Powers of two.
use vstd::arithmetic::power2::{
    lemma2_to64, lemma_pow2_pos, lemma_pow2_strictly_increases, lemma_pow2_unfold, pow2,
};
use vstd::prelude::*;

verus! {

/// An integer is a power of two where it is 2 to some exponent.
pub open spec fn is_power_of_two(n: nat) -> bool {
    exists|k: nat| n == #[trigger] pow2(k)
}

/// The first of 2 to the exponents `k`, `k + 1` and so on that is at least `n`.
pub open spec fn first_power_from(n: nat, k: nat) -> nat
    decreases 2 * n - pow2(k),
{
    if pow2(k) >= n {
        pow2(k)
    } else {
        proof {
            lemma_pow2_unfold(k + 1);
            lemma_pow2_pos(k);
        }
        first_power_from(n, k + 1)
    }
}

/// The smallest power of two that is at least `n`.
pub open spec fn next_power_of_two(n: nat) -> nat {
    first_power_from(n, 0)
}

proof fn lemma_first_power_from(n: nat, k: nat)
    ensures
        is_power_of_two(first_power_from(n, k)),
        first_power_from(n, k) >= n,
        forall|e: nat| k <= e && #[trigger] pow2(e) >= n ==> pow2(e) >= first_power_from(n, k),
    decreases 2 * n - pow2(k),
{
    if pow2(k) >= n {
        assert forall|e: nat| k <= e && #[trigger] pow2(e) >= n implies pow2(e) >= pow2(k) by {
            if k < e {
                lemma_pow2_strictly_increases(k, e);
            }
        }
    } else {
        lemma_pow2_unfold(k + 1);
        lemma_pow2_pos(k);
        lemma_first_power_from(n, k + 1);
    }
}

/// The next power of two is a power of two that is at least the integer, and no power of two that
/// is at least the integer is smaller. A power of two is its own next one.
pub proof fn law_next_power_of_two(n: nat)
    ensures
        is_power_of_two(next_power_of_two(n)),
        next_power_of_two(n) >= n,
        next_power_of_two(n) >= 1,
        forall|p: nat| #[trigger] is_power_of_two(p) && p >= n ==> p >= next_power_of_two(n),
        is_power_of_two(n) <==> next_power_of_two(n) == n,
{
    lemma_first_power_from(n, 0);
    let m = next_power_of_two(n);
    let k = choose|k: nat| m == #[trigger] pow2(k);
    lemma_pow2_pos(k);
    assert forall|p: nat| #[trigger] is_power_of_two(p) && p >= n implies p >= m by {
        let e = choose|e: nat| p == #[trigger] pow2(e);
        assert(pow2(e) >= n);
    }
}

/// The smallest power of two that is at least `n`; `None` where that is beyond the range.
pub fn checked_next_power_of_two(n: usize) -> (r: Option<usize>)
    ensures
        r == if next_power_of_two(n as nat) <= usize::MAX {
            Some(next_power_of_two(n as nat) as usize)
        } else {
            None
        },
{
    let mut p: usize = 1;
    let ghost mut k: nat = 0;
    proof {
        lemma2_to64();
    }
    while p < n
        invariant
            p == pow2(k),
            next_power_of_two(n as nat) == first_power_from(n as nat, k),
            p >= 1,
        decreases 2 * n - p,
    {
        proof {
            lemma_pow2_unfold(k + 1);
            lemma_first_power_from(n as nat, k + 1);
        }
        if p > usize::MAX / 2 {
            proof {
                lemma_first_power_at_least(n as nat, k + 1);
            }
            return None;
        }
        p = p * 2;
        proof {
            k = k + 1;
        }
    }
    Some(p)
}

proof fn lemma_first_power_at_least(n: nat, k: nat)
    ensures
        first_power_from(n, k) >= pow2(k),
    decreases 2 * n - pow2(k),
{
    if pow2(k) < n {
        lemma_pow2_unfold(k + 1);
        lemma_pow2_pos(k);
        lemma_first_power_at_least(n, k + 1);
    }
}

/// What is found is 2 to some exponent, at least the number, and no larger than any such power;
/// where nothing is found, every such power is beyond the range.
pub proof fn law_next_power_is_found(n: usize, r: Option<usize>)
    requires
        call_ensures(checked_next_power_of_two, (n,), r),
    ensures
        r matches Some(p) ==> {
            &&& exists|k: nat| p == #[trigger] pow2(k)
            &&& p >= n
            &&& forall|k: nat| #[trigger] pow2(k) >= n ==> pow2(k) >= p
        },
        r is None ==> forall|k: nat| #[trigger] pow2(k) >= n ==> pow2(k) > usize::MAX,
{
    law_next_power_of_two(n as nat);
    assert forall|k: nat| #[trigger] pow2(k) >= n implies pow2(k) >= next_power_of_two(
        n as nat,
    ) by {
        assert(is_power_of_two(pow2(k)));
    }
}

} // verus!
