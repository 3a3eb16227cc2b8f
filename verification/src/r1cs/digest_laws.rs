//! Equal shapes have equal digests.
use super::shape::R1CSShape;
use crate::field::Scalar;
use crate::traits::Engine;
use vstd::prelude::*;

verus! {

/// A function from shapes to integers depends on the sizes and the matrices alone.
pub open spec fn depends_on_constraints<E: Engine>(
    digest_of: spec_fn(R1CSShape<E>) -> nat,
) -> bool {
    forall|s: R1CSShape<E>, q: R1CSShape<E>|
        s.wf() && q.wf() && s.same_constraints(&q) ==> #[trigger] digest_of(s)
            == #[trigger] digest_of(q)
}

/// Every scalar that a computation gives for a shape has the integer that the function has there.
pub open spec fn computes<E: Engine, X, F: FnOnce(&R1CSShape<E>) -> Result<E::Scalar, X>>(
    compute: F,
    digest_of: spec_fn(R1CSShape<E>) -> nat,
) -> bool {
    forall|s: &R1CSShape<E>, y: E::Scalar| #[trigger]
        compute.ensures((s,), Ok(y)) ==> y.value() == digest_of(*s)
}

/// A computation never fails.
pub open spec fn always_computes<E: Engine, X, F: FnOnce(&R1CSShape<E>) -> Result<E::Scalar, X>>(
    compute: F,
) -> bool {
    forall|s: &R1CSShape<E>, e: X| !#[trigger] compute.ensures((s,), Err(e))
}

/// A shape keeps no digest or the one that the function has for it.
pub open spec fn keeps_digest<E: Engine>(
    S: R1CSShape<E>,
    digest_of: spec_fn(R1CSShape<E>) -> nat,
) -> bool {
    S.kept_digest() matches Some(d) ==> d == digest_of(S)
}

/// The digest that a shape is asked for is the one that the function has for it, kept or not, and
/// the shape keeps that one from then on.
pub proof fn law_digest_is_that_of_the_constraints<
    E: Engine,
    X,
    F: FnOnce(&R1CSShape<E>) -> Result<E::Scalar, X>,
>(
    S: R1CSShape<E>,
    digest_of: spec_fn(R1CSShape<E>) -> nat,
    compute: F,
    r: Result<E::Scalar, X>,
    after: R1CSShape<E>,
)
    requires
        S.wf(),
        depends_on_constraints(digest_of),
        computes(compute, digest_of),
        keeps_digest(S, digest_of),
        S.digests_to(compute, r, after),
    ensures
        r matches Ok(x) ==> x.value() == digest_of(S) && after.kept_digest() == Some(digest_of(S)),
        always_computes(compute) ==> r is Ok,
        after.wf(),
        after.same_constraints(&S),
        keeps_digest(after, digest_of),
{
    assert(after.same_constraints(&S));
    assert(digest_of(after) == digest_of(S));
    if S.kept_digest() is None && r is Ok {
        let (s, y) = choose|s: &R1CSShape<E>, y: E::Scalar|
            s.undigested_form_of(&S) && #[trigger] compute.ensures((s,), Ok(y)) && y.value()
                == r->Ok_0.value();
        assert(s.same_constraints(&S));
        assert(digest_of(*s) == digest_of(S));
    }
}

/// Shapes with the same sizes and matrices have the same digest, whether or not either of them was
/// asked for it before.
pub proof fn law_equal_shapes_have_equal_digests<
    E: Engine,
    X,
    F: FnOnce(&R1CSShape<E>) -> Result<E::Scalar, X>,
    Y,
    G: FnOnce(&R1CSShape<E>) -> Result<E::Scalar, Y>,
>(
    S: R1CSShape<E>,
    Q: R1CSShape<E>,
    digest_of: spec_fn(R1CSShape<E>) -> nat,
    f: F,
    r: Result<E::Scalar, X>,
    S_after: R1CSShape<E>,
    g: G,
    q: Result<E::Scalar, Y>,
    Q_after: R1CSShape<E>,
)
    requires
        S.wf(),
        Q.wf(),
        S.same_constraints(&Q),
        depends_on_constraints(digest_of),
        computes(f, digest_of),
        computes(g, digest_of),
        always_computes(f),
        always_computes(g),
        keeps_digest(S, digest_of),
        keeps_digest(Q, digest_of),
        S.digests_to(f, r, S_after),
        Q.digests_to(g, q, Q_after),
    ensures
        r matches Ok(x) && q matches Ok(y) && x.value() == y.value(),
        S_after.kept_digest() is Some,
        S_after.kept_digest() == Q_after.kept_digest(),
{
    law_digest_is_that_of_the_constraints(S, digest_of, f, r, S_after);
    law_digest_is_that_of_the_constraints(Q, digest_of, g, q, Q_after);
    assert(digest_of(S) == digest_of(Q));
}

/// Once a shape has given its digest, every later call gives the same one, whatever it would
/// compute.
pub proof fn law_digest_is_stable<
    E: Engine,
    X,
    F: FnOnce(&R1CSShape<E>) -> Result<E::Scalar, X>,
    Y,
    G: FnOnce(&R1CSShape<E>) -> Result<E::Scalar, Y>,
>(
    S: R1CSShape<E>,
    f: F,
    x: E::Scalar,
    S_after: R1CSShape<E>,
    g: G,
    later: Result<E::Scalar, Y>,
    S_later: R1CSShape<E>,
)
    requires
        S.digests_to(f, Ok::<E::Scalar, X>(x), S_after),
        S_after.digests_to(g, later, S_later),
    ensures
        later matches Ok(y) && y.value() == x.value(),
        S_later.kept_digest() == S_after.kept_digest(),
{
}

/// A copy of a shape keeps the digest of the shape, which is its own.
pub proof fn law_copies_keep_digests<E: Engine>(
    S: R1CSShape<E>,
    copy: R1CSShape<E>,
    digest_of: spec_fn(R1CSShape<E>) -> nat,
)
    requires
        S.wf(),
        copy.wf(),
        depends_on_constraints(digest_of),
        keeps_digest(S, digest_of),
        copy.same_constraints(&S),
        copy.kept_digest() == S.kept_digest(),
    ensures
        keeps_digest(copy, digest_of),
{
    assert(digest_of(copy) == digest_of(S));
}

/// No stale digest survives padding: a padded shape keeps no digest or its own.
pub proof fn law_padding_keeps_no_stale_digest<E: Engine>(
    S: R1CSShape<E>,
    P: R1CSShape<E>,
    digest_of: spec_fn(R1CSShape<E>) -> nat,
)
    requires
        S.wf(),
        P.wf(),
        depends_on_constraints(digest_of),
        keeps_digest(S, digest_of),
        S.padded_to(P),
    ensures
        keeps_digest(P, digest_of),
        !P.same_constraints(&S) ==> P.kept_digest() is None,
{
    if S.regular() {
        law_copies_keep_digests(S, P, digest_of);
    }
}

/// A call for the digest changes no size and no matrix. It gives the digest that the function has
/// for the shape, whether one was kept or not, and the shape keeps that one. Where the computation
/// fails, its error comes back, and nothing is kept.
pub proof fn law_digest_call<E: Engine, X, F: FnOnce(&R1CSShape<E>) -> Result<E::Scalar, X>>(
    S: &mut R1CSShape<E>,
    digest_of: spec_fn(R1CSShape<E>) -> nat,
    compute: F,
    r: Result<E::Scalar, X>,
)
    requires
        old(S).wf(),
        depends_on_constraints(digest_of),
        computes(compute, digest_of),
        keeps_digest(*old(S), digest_of),
        call_ensures(R1CSShape::<E>::digest::<X, F>, (S, compute), r),
    ensures
        final(S).num_cons == old(S).num_cons,
        final(S).num_vars == old(S).num_vars,
        final(S).num_io == old(S).num_io,
        final(S).A == old(S).A,
        final(S).B == old(S).B,
        final(S).C == old(S).C,
        r matches Ok(x) ==> x.value() == digest_of(*old(S)) && final(S).kept_digest() == Some(
            digest_of(*old(S)),
        ),
        r matches Err(e) ==> {
            &&& exists|s: &R1CSShape<E>| #[trigger]
                compute.ensures((s,), Err(e)) && s.A == old(S).A && s.B == old(S).B && s.C == old(
                    S,
                ).C && s.num_cons == old(S).num_cons && s.num_vars == old(S).num_vars && s.num_io
                    == old(S).num_io
            &&& old(S).kept_digest() is None
            &&& final(S).kept_digest() is None
        },
{
    law_digest_is_that_of_the_constraints(*old(S), digest_of, compute, r, *final(S));
}

/// A later call for the digest gives what the earlier one gave, whatever it would compute.
pub proof fn law_later_digest_call<
    E: Engine,
    Y,
    G: FnOnce(&R1CSShape<E>) -> Result<E::Scalar, Y>,
>(
    S: &mut R1CSShape<E>,
    d: nat,
    compute: G,
    later: Result<E::Scalar, Y>,
)
    requires
        old(S).kept_digest() == Some(d),
        call_ensures(R1CSShape::<E>::digest::<Y, G>, (S, compute), later),
    ensures
        later matches Ok(y) && y.value() == d,
        final(S).kept_digest() == Some(d),
{
}

} // verus!
