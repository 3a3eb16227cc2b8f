//! What the library takes from `rayon`: work shared out between threads.
use rayon::prelude::{
    IndexedParallelIterator, IntoParallelIterator, IntoParallelRefIterator,
    IntoParallelRefMutIterator, ParallelIterator,
};
use vstd::prelude::*;

verus! {

/// `rayon::join` runs both closures, perhaps at the same time, and returns the pair of what
/// they returned.
pub assume_specification<A, B, RA, RB>[ rayon::join::<A, B, RA, RB> ](
    oper_a: A,
    oper_b: B,
) -> (r: (RA, RB)) where
    A: FnOnce() -> RA + Send,
    B: FnOnce() -> RB + Send,
    RA: Send,
    RB: Send,

    requires
        oper_a.requires(()),
        oper_b.requires(()),
    ensures
        oper_a.ensures((), r.0),
        oper_b.ensures((), r.1),
;

/// The chain of `into_par_iter` on a range, `map` and `collect` of `rayon`: the closure runs
/// once on each index below `n`, and the results come out in the order of the indices.
#[verifier::external_body]
pub(crate) fn par_map_range<T: Send, F: Fn(usize) -> T + Sync + Send>(n: usize, f: F) -> (r: Vec<T>)
    requires
        forall|i: usize| i < n ==> #[trigger] f.requires((i,)),
    ensures
        r@.len() == n,
        forall|i: int| 0 <= i < n ==> f.ensures((i as usize,), #[trigger] r@[i]),
{
    (0..n).into_par_iter().map(f).collect()
}

/// The chain of `into_par_iter` on a range, `map` and `collect_into_vec` of `rayon`: as
/// `par_map_range`, with the results in `target` in place of what it held.
#[verifier::external_body]
pub(crate) fn par_map_range_into<T: Send, F: Fn(usize) -> T + Sync + Send>(
    n: usize,
    f: F,
    target: &mut Vec<T>,
)
    requires
        forall|i: usize| i < n ==> #[trigger] f.requires((i,)),
    ensures
        final(target)@.len() == n,
        forall|i: int| 0 <= i < n ==> f.ensures((i as usize,), #[trigger] final(target)@[i]),
{
    (0..n).into_par_iter().map(f).collect_into_vec(target)
}

/// The chain of `par_iter`, `zip`, `map` and `collect` of `rayon`: the closure runs once on each
/// pair of items at one place, as far as both slices reach, and the results keep the order.
#[verifier::external_body]
pub(crate) fn par_zip_map<A: Sync, B: Sync, T: Send, F: Fn(&A, &B) -> T + Sync + Send>(
    a: &[A],
    b: &[B],
    f: F,
) -> (r: Vec<T>)
    requires
        forall|i: int|
            0 <= i < a@.len() && i < b@.len() ==> #[trigger] f.requires((&a@[i], &b@[i])),
    ensures
        r@.len() == if a@.len() <= b@.len() {
            a@.len()
        } else {
            b@.len()
        },
        forall|i: int| 0 <= i < r@.len() ==> f.ensures((&a@[i], &b@[i]), #[trigger] r@[i]),
{
    a.par_iter().zip(b).map(|(x, y)| f(x, y)).collect()
}

/// The chain of `par_iter_mut` and `for_each` of `rayon`: the closure runs once on each item of
/// the vector and may change it in place.
#[verifier::external_body]
pub(crate) fn par_for_each_mut<T: Send, F: Fn(&mut T) + Sync + Send>(items: &mut Vec<T>, f: F)
    requires
        forall|x: &mut T| old(items)@.contains(*x) ==> #[trigger] f.requires((x,)),
    ensures
        final(items)@.len() == old(items)@.len(),
        forall|i: int|
            #![trigger final(items)@[i]]
            0 <= i < old(items)@.len() ==> exists|x: &mut T|
                *x == old(items)@[i] && *final(x) == final(items)@[i] && #[trigger] f.ensures(
                    (x,),
                    (),
                ),
{
    items.par_iter_mut().for_each(f)
}

/// The chain of `par_iter_mut`, `zip_eq` and `for_each` of `rayon`: the closure runs once on each
/// item of the vector with the item at the same place of the slice, and may change the former
/// in place. `zip_eq` panics where the lengths differ.
#[verifier::external_body]
pub(crate) fn par_zip_eq_for_each_mut<T: Send, B: Sync, F: Fn(&mut T, &B) + Sync + Send>(
    items: &mut Vec<T>,
    others: &[B],
    f: F,
)
    requires
        old(items)@.len() == others@.len(),
        forall|x: &mut T, i: int|
            0 <= i < others@.len() && *x == old(items)@[i] ==> #[trigger] f.requires(
                (x, &others@[i]),
            ),
    ensures
        final(items)@.len() == old(items)@.len(),
        forall|i: int|
            #![trigger final(items)@[i]]
            0 <= i < old(items)@.len() ==> exists|x: &mut T|
                *x == old(items)@[i] && *final(x) == final(items)@[i] && #[trigger] f.ensures(
                    (x, &others@[i]),
                    (),
                ),
{
    items.par_iter_mut().zip_eq(others).for_each(|(x, y)| f(x, y))
}

} // verus!
