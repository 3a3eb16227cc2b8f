//! What a call that absorbs an instance, or writes it for a transcript, hands on.
use super::instance::{
    all_limb_elements, all_transcript_bytes, base_elements, limb_elements, R1CSInstance,
    RelaxedR1CSInstance,
};
use crate::bignum::{law_limbs, lemma_limb_at, lemma_limbs_len, limbs, BN_N_LIMBS};
use crate::field::{residue, values, Scalar};
use crate::traits::{AbsorbInROTrait, Engine, ROTrait, TranscriptReprTrait};
use vstd::arithmetic::div_mod::*;
use vstd::arithmetic::power2::*;
use vstd::prelude::*;

verus! {

/// After what it took in before, an oracle takes in the elements of the commitment of an instance,
/// and then one element for each public input and output, its integer modulo the order of the base
/// field.
pub proof fn law_absorbed_instance<E: Engine>(U: R1CSInstance<E>, ro: &mut E::RO)
    requires
        call_ensures(<R1CSInstance<E> as AbsorbInROTrait<E::RO>>::absorb_in_ro, (&U, ro), ()),
    ensures
        final(ro).absorbed().len() == old(ro).absorbed().len() + U.comm_W.ro_elements().len()
            + U.X@.len(),
        final(ro).absorbed().take(
            (old(ro).absorbed().len() + U.comm_W.ro_elements().len()) as int,
        ) == old(ro).absorbed() + U.comm_W.ro_elements(),
        forall|i: int|
            #![trigger U.X@[i]]
            0 <= i < U.X@.len() ==> final(ro).absorbed()[old(ro).absorbed().len()
                + U.comm_W.ro_elements().len() + i] == U.X@[i].value() % E::Base::modulus(),
{
    E::Base::lemma_residue(arbitrary());
    let head = old(ro).absorbed() + U.comm_W.ro_elements();
    let tail = base_elements(E::Base::modulus(), values(U.X@));
    assert(final(ro).absorbed() =~= head + tail);
    assert((head + tail).take(head.len() as int) =~= head);
    assert forall|i: int| #![trigger U.X@[i]] 0 <= i < U.X@.len() implies (head + tail)[head.len()
        + i] == U.X@[i].value() % E::Base::modulus() by {
        assert(values(U.X@)[i] == U.X@[i].value());
        assert((head + tail)[head.len() + i] == tail[i]);
    }
}

/// Two instances with the same commitment whose public inputs and outputs differ in number, or
/// modulo the order of the base field, are absorbed differently.
pub proof fn law_different_inputs_are_absorbed_differently<E: Engine>(
    U: R1CSInstance<E>,
    V: R1CSInstance<E>,
    ro: &mut E::RO,
    other: &mut E::RO,
    i: int,
)
    requires
        U.comm_W.ro_elements() == V.comm_W.ro_elements(),
        old(ro).absorbed() == old(other).absorbed(),
        U.X@.len() != V.X@.len() || (0 <= i < U.X@.len() && U.X@[i].value() % E::Base::modulus()
            != V.X@[i].value() % E::Base::modulus()),
        call_ensures(<R1CSInstance<E> as AbsorbInROTrait<E::RO>>::absorb_in_ro, (&U, ro), ()),
        call_ensures(<R1CSInstance<E> as AbsorbInROTrait<E::RO>>::absorb_in_ro, (&V, other), ()),
    ensures
        final(ro).absorbed() != final(other).absorbed(),
{
    E::Base::lemma_residue(arbitrary());
    let head = old(ro).absorbed() + U.comm_W.ro_elements();
    let (a, b) = (
        base_elements(E::Base::modulus(), values(U.X@)),
        base_elements(E::Base::modulus(), values(V.X@)),
    );
    assert(final(ro).absorbed() =~= head + a);
    assert(final(other).absorbed() =~= head + b);
    if U.X@.len() == V.X@.len() {
        assert(values(U.X@)[i] == U.X@[i].value() && values(V.X@)[i] == V.X@[i].value());
        assert((head + a)[head.len() + i] == a[i] && (head + b)[head.len() + i] == b[i]);
    } else {
        assert((head + a).len() != (head + b).len());
    }
}

/// The elements for the limbs of all scalars lie four by four.
proof fn lemma_all_limbs_at(base: nat, scalar: nat, xs: Seq<nat>, i: int, j: int)
    requires
        0 <= i < xs.len(),
        0 <= j < 4,
    ensures
        all_limb_elements(base, scalar, xs).len() == 4 * xs.len(),
        all_limb_elements(base, scalar, xs)[4 * i + j] == limb_elements(base, scalar, xs[i])[j],
    decreases xs.len(),
{
    let rest = xs.drop_last();
    lemma_all_limbs_len(base, scalar, rest);
    lemma_all_limbs_len(base, scalar, xs);
    let part = limb_elements(base, scalar, xs.last());
    let all = all_limb_elements(base, scalar, rest);
    assert(all_limb_elements(base, scalar, xs) == all + part);
    if i < rest.len() {
        lemma_all_limbs_at(base, scalar, rest, i, j);
        assert((all + part)[4 * i + j] == all[4 * i + j]);
    } else {
        assert((all + part)[4 * i + j] == part[j]);
    }
}

proof fn lemma_all_limbs_len(base: nat, scalar: nat, xs: Seq<nat>)
    ensures
        all_limb_elements(base, scalar, xs).len() == 4 * xs.len(),
    decreases xs.len(),
{
    if xs.len() > 0 {
        lemma_all_limbs_len(base, scalar, xs.drop_last());
        assert(limb_elements(base, scalar, xs.last()).len() == 4);
    }
}

/// After what it took in before, an oracle takes in the elements of both commitments of a relaxed
/// instance, then its scalar modulo the order of the base field, and then for each public input and
/// output four elements, which stand for its 64-bit parts from the least significant one on.
pub proof fn law_absorbed_relaxed_instance<E: Engine>(U: RelaxedR1CSInstance<E>, ro: &mut E::RO)
    requires
        call_ensures(
            <RelaxedR1CSInstance<E> as AbsorbInROTrait<E::RO>>::absorb_in_ro,
            (&U, ro),
            (),
        ),
    ensures
        ({
            let head = old(ro).absorbed() + U.comm_W.ro_elements() + U.comm_E.ro_elements();
            let all = final(ro).absorbed();
            &&& all.len() == head.len() + 1 + 4 * U.X@.len()
            &&& all.take(head.len() as int) == head
            &&& all[head.len() as int] == U.u.value() % E::Base::modulus()
            &&& forall|i: int, j: nat|
                #![trigger U.X@[i], pow2(64 * j)]
                0 <= i < U.X@.len() && j < 4 ==> all[head.len() + 1 + 4 * i + j] == ((
                U.X@[i].value() / pow2(64 * j)) % pow2(64)) % E::Scalar::modulus()
                    % E::Base::modulus()
        }),
{
    E::Base::lemma_residue(arbitrary());
    E::Scalar::lemma_residue(U.u);
    let (base, scalar) = (E::Base::modulus(), E::Scalar::modulus());
    let xs = values(U.X@);
    let head = old(ro).absorbed() + U.comm_W.ro_elements() + U.comm_E.ro_elements();
    let mid = seq![residue(base, U.u.value() as int)];
    let tail = all_limb_elements(base, scalar, xs);
    let all = final(ro).absorbed();
    assert(all =~= head + mid + tail);
    lemma_all_limbs_len(base, scalar, xs);
    assert(all.take(head.len() as int) =~= head);
    assert forall|i: int, j: nat|
        #![trigger U.X@[i], pow2(64 * j)]
        0 <= i < U.X@.len() && j < 4 implies all[head.len() + 1 + 4 * i + j] == ((U.X@[i].value()
        / pow2(64 * j)) % pow2(64)) % scalar % base by {
        assert(xs[i] == U.X@[i].value());
        lemma_all_limbs_at(base, scalar, xs, i, j as int);
        lemma_limb_at(xs[i], BN_N_LIMBS as nat, j);
        assert(all[head.len() + 1 + 4 * i + j] == tail[4 * i + j]);
    }
}

/// Two relaxed instances with the same commitments whose scalars differ modulo the order of the
/// base field, or whose public inputs and outputs differ, are absorbed differently, where the
/// orders of both fields leave room for 64 bits and public inputs and outputs have no more than 256
/// bits.
pub proof fn law_different_relaxed_instances_are_absorbed_differently<E: Engine>(
    U: RelaxedR1CSInstance<E>,
    V: RelaxedR1CSInstance<E>,
    ro: &mut E::RO,
    other: &mut E::RO,
    i: int,
)
    requires
        U.comm_W.ro_elements() == V.comm_W.ro_elements(),
        U.comm_E.ro_elements() == V.comm_E.ro_elements(),
        old(ro).absorbed() == old(other).absorbed(),
        E::Base::modulus() >= pow2(64),
        E::Scalar::modulus() >= pow2(64),
        U.u.value() % E::Base::modulus() != V.u.value() % E::Base::modulus() || U.X@.len()
            != V.X@.len() || (0 <= i < U.X@.len() && U.X@[i].value() < pow2(256)
            && V.X@[i].value() < pow2(256) && U.X@[i].value() != V.X@[i].value()),
        call_ensures(
            <RelaxedR1CSInstance<E> as AbsorbInROTrait<E::RO>>::absorb_in_ro,
            (&U, ro),
            (),
        ),
        call_ensures(
            <RelaxedR1CSInstance<E> as AbsorbInROTrait<E::RO>>::absorb_in_ro,
            (&V, other),
            (),
        ),
    ensures
        final(ro).absorbed() != final(other).absorbed(),
{
    E::Base::lemma_residue(arbitrary());
    E::Scalar::lemma_residue(U.u);
    let (base, scalar) = (E::Base::modulus(), E::Scalar::modulus());
    let head = old(ro).absorbed() + U.comm_W.ro_elements() + U.comm_E.ro_elements();
    let (xs, ys) = (values(U.X@), values(V.X@));
    let a = head + seq![residue(base, U.u.value() as int)] + all_limb_elements(base, scalar, xs);
    let b = head + seq![residue(base, V.u.value() as int)] + all_limb_elements(base, scalar, ys);
    assert(final(ro).absorbed() =~= a);
    assert(final(other).absorbed() =~= b);
    lemma_all_limbs_len(base, scalar, xs);
    lemma_all_limbs_len(base, scalar, ys);
    if a == b {
        assert(a[head.len() as int] == b[head.len() as int]);
        assert(a.len() == b.len());
        let (x, y) = (U.X@[i].value(), V.X@[i].value());
        assert(xs[i] == x && ys[i] == y);
        assert forall|j: nat| j < 4 implies #[trigger] limbs(x, 4)[j as int]
            == limbs(y, 4)[j as int] by {
            lemma_all_limbs_at(base, scalar, xs, i, j as int);
            lemma_all_limbs_at(base, scalar, ys, i, j as int);
            assert(a[head.len() + 1 + 4 * i + j] == b[head.len() + 1 + 4 * i + j]);
            lemma_limb_at(x, 4, j);
            lemma_limb_at(y, 4, j);
            lemma_pow2_pos(64);
            let (p, q) = (limbs(x, 4)[j as int], limbs(y, 4)[j as int]);
            lemma_mod_bound((x / pow2(64 * j)) as int, pow2(64) as int);
            lemma_mod_bound((y / pow2(64 * j)) as int, pow2(64) as int);
            lemma_small_mod(p, scalar);
            lemma_small_mod(q, scalar);
            lemma_small_mod(p, base);
            lemma_small_mod(q, base);
        }
        lemma_limbs_len(x, 4);
        lemma_limbs_len(y, 4);
        assert forall|j: int| 0 <= j < 4 implies limbs(x, 4)[j] == limbs(y, 4)[j] by {
            assert(limbs(x, 4)[(j as nat) as int] == limbs(y, 4)[(j as nat) as int]);
        }
        assert(limbs(x, 4) =~= limbs(y, 4));
        law_limbs(x, 4);
        law_limbs(y, 4);
    }
}

/// The bytes of all items are those of the single items, one after the other.
proof fn lemma_all_transcript_bytes<T: TranscriptReprTrait>(items: Seq<T>, parts: Seq<Seq<u8>>)
    requires
        parts.len() == items.len(),
        forall|i: int| 0 <= i < items.len() ==> #[trigger] parts[i] == items[i].transcript_bytes(),
    ensures
        all_transcript_bytes(items) == parts.flatten_alt(),
    decreases items.len(),
{
    if items.len() > 0 {
        lemma_all_transcript_bytes(items.drop_last(), parts.drop_last());
        assert(parts.last() == items.last().transcript_bytes());
    }
}

/// What is written of a relaxed instance are the bytes of both commitments, of the scalar, and of
/// the public inputs and outputs, one after the other.
pub proof fn law_written_relaxed_instance<E: Engine>(
    U: RelaxedR1CSInstance<E>,
    parts: Seq<Seq<u8>>,
    bytes: Vec<u8>,
)
    requires
        parts.len() == U.X@.len(),
        forall|i: int| 0 <= i < U.X@.len() ==> #[trigger] parts[i] == U.X@[i].transcript_bytes(),
        call_ensures(
            <RelaxedR1CSInstance<E> as TranscriptReprTrait>::to_transcript_bytes,
            (&U,),
            bytes,
        ),
    ensures
        bytes@ == U.comm_W.transcript_bytes() + U.comm_E.transcript_bytes()
            + U.u.transcript_bytes() + parts.flatten(),
{
    lemma_all_transcript_bytes(U.X@, parts);
    parts.lemma_flatten_and_flatten_alt_are_equivalent();
}

} // verus!
