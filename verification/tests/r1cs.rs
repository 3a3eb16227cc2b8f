//! Shapes, instances and witnesses over three engines.
#![allow(non_snake_case)]
use ff::PrimeField;
use nova_r1cs::bignum::{scalar_as_base, scalar_limbs};
use nova_r1cs::errors::NovaError;
use nova_r1cs::field::{combine_elements, Scalar};
use nova_r1cs::ghost_types::{Integer, Natural, Sequence};
use nova_r1cs::pallas::PallasScalar;
use nova_r1cs::r1cs::{
    default_T, CommitmentKeyHint, R1CSInstance, R1CSResult, R1CSShape, R1CSWitness,
    RelaxedR1CSInstance, RelaxedR1CSWitness, SparseMatrix, R1CS,
};
use nova_r1cs::traits::{
    AbsorbInROTrait, CommitmentEngineTrait, CommitmentTrait, Engine, ROTrait, TranscriptReprTrait,
};
use std::marker::PhantomData;

/// An element of any prime field with 32 bytes, least significant first.
#[derive(Clone, Copy, Debug, PartialEq, Eq)]
struct FieldElem<F>(F);

impl<F: PrimeField<Repr = [u8; 32]>> Scalar for FieldElem<F> {
    fn modulus() -> Natural {
        unreachable!()
    }
    fn value(&self) -> Natural {
        unreachable!()
    }
    fn lemma_residue(_x: Self) {}
    fn zero() -> Self {
        FieldElem(F::ZERO)
    }
    fn one() -> Self {
        FieldElem(F::ONE)
    }
    fn from_u64(n: u64) -> Self {
        FieldElem(F::from(n))
    }
    fn add(self, other: Self) -> Self {
        FieldElem(self.0 + other.0)
    }
    fn sub(self, other: Self) -> Self {
        FieldElem(self.0 - other.0)
    }
    fn mul(self, other: Self) -> Self {
        FieldElem(self.0 * other.0)
    }
    fn equals(&self, other: &Self) -> bool {
        self.0 == other.0
    }
    fn to_repr(&self) -> [u8; 32] {
        self.0.to_repr()
    }
    fn from_repr(repr: [u8; 32]) -> Option<Self> {
        Option::<F>::from(F::from_repr(repr)).map(FieldElem)
    }
}

impl<F: PrimeField<Repr = [u8; 32]>> TranscriptReprTrait for FieldElem<F> {
    fn transcript_bytes(&self) -> Sequence<u8> {
        unreachable!()
    }
    fn to_transcript_bytes(&self) -> Vec<u8> {
        self.0.to_repr().to_vec()
    }
}

/// An oracle that remembers what it took in.
struct Recorder<B>(Vec<B>);

impl<B: Scalar> ROTrait for Recorder<B> {
    type Base = B;

    fn absorbed(&self) -> Sequence<Natural> {
        unreachable!()
    }
    fn absorb(&mut self, e: B) {
        self.0.push(e)
    }
}

/// A commitment to a vector by the sum of its items, each times a generator.
#[derive(Clone, Copy, Debug, PartialEq, Eq)]
struct Linear<S>(S);

impl<S: Scalar> CommitmentTrait<S> for Linear<S> {
    fn element(&self) -> Integer {
        unreachable!()
    }
    fn neutral() -> Integer {
        unreachable!()
    }
    fn sum(_a: Integer, _b: Integer) -> Integer {
        unreachable!()
    }
    fn scaled(_a: Integer, _s: Natural) -> Integer {
        unreachable!()
    }
    fn identity() -> Self {
        Linear(S::zero())
    }
    fn add(self, other: Self) -> Self {
        Linear(self.0.add(other.0))
    }
    fn mul(self, s: S) -> Self {
        Linear(self.0.mul(s))
    }
    fn equals(&self, other: &Self) -> bool {
        self.0.equals(&other.0)
    }
}

impl<S: Scalar, B: Scalar> AbsorbInROTrait<Recorder<B>> for Linear<S> {
    fn ro_elements(&self) -> Sequence<Natural> {
        unreachable!()
    }
    fn absorb_in_ro(&self, ro: &mut Recorder<B>) {
        ro.absorb(scalar_as_base::<S, B>(&self.0))
    }
}

impl<S: TranscriptReprTrait> TranscriptReprTrait for Linear<S> {
    fn transcript_bytes(&self) -> Sequence<u8> {
        unreachable!()
    }
    fn to_transcript_bytes(&self) -> Vec<u8> {
        self.0.to_transcript_bytes()
    }
}

/// Generators, and the label that they were made from.
#[derive(Debug)]
struct Key<S> {
    label: Vec<u8>,
    generators: Vec<S>,
}

#[derive(Clone, Copy, Debug, PartialEq, Eq)]
struct LinearScheme;

impl<S: Scalar + TranscriptReprTrait, B: Scalar> CommitmentEngineTrait<S, Recorder<B>>
    for LinearScheme
{
    type CommitmentKey = Key<S>;
    type Commitment = Linear<S>;

    fn is_setup(_label: Sequence<u8>, _n: Natural, _ck: Key<S>) -> bool {
        unreachable!()
    }
    fn capacity(_ck: Key<S>) -> Natural {
        unreachable!()
    }
    fn committed(_ck: Key<S>, _v: Sequence<Natural>) -> Integer {
        unreachable!()
    }
    fn setup(label: &[u8], n: usize) -> Key<S> {
        let start = label.iter().fold(7u64, |a, b| a * 31 + u64::from(*b));
        Key {
            label: label.to_vec(),
            generators: (0..n as u64).map(|i| S::from_u64(start + i * i * 1009)).collect(),
        }
    }

    fn commit(ck: &Key<S>, v: &[S]) -> Linear<S> {
        assert!(v.len() <= ck.generators.len());
        let mut sum = S::zero();
        for (x, g) in v.iter().zip(&ck.generators) {
            sum = sum.add(x.mul(*g));
        }
        Linear(sum)
    }
}

#[derive(Clone, Copy, Debug, PartialEq, Eq)]
struct TestEngine<S, B>(PhantomData<(S, B)>);

impl<S: Scalar + TranscriptReprTrait, B: Scalar> Engine for TestEngine<S, B> {
    type Scalar = S;
    type Base = B;
    type RO = Recorder<B>;
    type CE = LinearScheme;
}

type PallasEngine = TestEngine<PallasScalar, FieldElem<pasta_curves::Fp>>;
type Bn256EngineKZG =
    TestEngine<FieldElem<halo2curves::bn256::Fr>, FieldElem<halo2curves::bn256::Fq>>;
type Secp256k1Engine =
    TestEngine<FieldElem<halo2curves::secp256k1::Fq>, FieldElem<halo2curves::secp256k1::Fp>>;

type P = PallasEngine;
type F = PallasScalar;

fn f(n: u64) -> F {
    F::from_u64(n)
}

fn fs(ns: &[u64]) -> Vec<F> {
    ns.iter().map(|n| f(*n)).collect()
}

fn tiny_r1cs<E: Engine>(num_vars: usize) -> R1CSShape<E> {
    let one = <E::Scalar as Scalar>::one();
    let (num_cons, num_vars, num_io, A, B, C) = {
        let num_cons = 4;
        let num_io = 2;

        // Consider a cubic equation: `x^3 + x + 5 = y`, where `x` and `y` are respectively the
        // input and output. The R1CS for this problem consists of the following constraints:
        // `I0 * I0 - Z0 = 0`
        // `Z0 * I0 - Z1 = 0`
        // `(Z1 + I0) * 1 - Z2 = 0`
        // `(Z2 + 5) * 1 - I1 = 0`

        // Relaxed R1CS is a set of three sparse matrices (A B C), where there is a row for every
        // constraint and a column for every entry in z = (vars, u, inputs)
        // An R1CS instance is satisfiable iff:
        // Az \circ Bz = u \cdot Cz + E, where z = (vars, 1, inputs)
        let mut A: Vec<(usize, usize, E::Scalar)> = Vec::new();
        let mut B: Vec<(usize, usize, E::Scalar)> = Vec::new();
        let mut C: Vec<(usize, usize, E::Scalar)> = Vec::new();

        // constraint 0 entries in (A,B,C)
        // `I0 * I0 - Z0 = 0`
        A.push((0, num_vars + 1, one));
        B.push((0, num_vars + 1, one));
        C.push((0, 0, one));

        // constraint 1 entries in (A,B,C)
        // `Z0 * I0 - Z1 = 0`
        A.push((1, 0, one));
        B.push((1, num_vars + 1, one));
        C.push((1, 1, one));

        // constraint 2 entries in (A,B,C)
        // `(Z1 + I0) * 1 - Z2 = 0`
        A.push((2, 1, one));
        A.push((2, num_vars + 1, one));
        B.push((2, num_vars, one));
        C.push((2, 2, one));

        // constraint 3 entries in (A,B,C)
        // `(Z2 + 5) * 1 - I1 = 0`
        A.push((3, 2, one));
        A.push((3, num_vars, one.add(one).add(one).add(one).add(one)));
        B.push((3, num_vars, one));
        C.push((3, num_vars + 2, one));

        (num_cons, num_vars, num_io, A, B, C)
    };

    // create a shape object
    let rows = num_cons;
    let cols = num_vars + num_io + 1;

    let res = R1CSShape::new(
        num_cons,
        num_vars,
        num_io,
        SparseMatrix::new(&A, rows, cols),
        SparseMatrix::new(&B, rows, cols),
        SparseMatrix::new(&C, rows, cols),
    );
    assert!(res.is_ok());
    res.unwrap()
}

fn test_pad_tiny_r1cs_with<E: Engine>() {
    let padded_r1cs = tiny_r1cs::<E>(3).pad();
    assert!(padded_r1cs.is_regular_shape());

    let expected_r1cs = tiny_r1cs::<E>(4);

    assert_eq!(padded_r1cs, expected_r1cs);
}

#[test]
fn test_pad_tiny_r1cs() {
    test_pad_tiny_r1cs_with::<PallasEngine>();
    test_pad_tiny_r1cs_with::<Bn256EngineKZG>();
    test_pad_tiny_r1cs_with::<Secp256k1Engine>();
}

/// The key of an engine for a shape, with no floor.
fn key<E: Engine>(
    S: &R1CSShape<E>,
) -> <E::CE as CommitmentEngineTrait<E::Scalar, E::RO>>::CommitmentKey {
    R1CS::<E>::commitment_key(S, &|_: &R1CSShape<E>| 0)
}

/// The instance and the witness of the cubic equation for an input.
fn cubic<E: Engine>(
    S: &R1CSShape<E>,
    ck: &<E::CE as CommitmentEngineTrait<E::Scalar, E::RO>>::CommitmentKey,
    x: u64,
) -> (R1CSInstance<E>, R1CSWitness<E>) {
    let n = |v: u64| <E::Scalar as Scalar>::from_u64(v);
    let (squared, cubed) = (x * x, x * x * x);
    let W = R1CSWitness::new(S, vec![n(squared), n(cubed), n(cubed + x)]).unwrap();
    let comm_W = W.commit(ck);
    let U = R1CSInstance::new(S, comm_W, vec![n(x), n(cubed + x + 5)]).unwrap();
    (U, W)
}

/// One constraint `z0 * z0 = z1` over two variables and one input that no constraint reads.
fn square() -> R1CSShape<P> {
    R1CSShape::new(
        1,
        2,
        1,
        SparseMatrix::new(&[(0, 0, f(1))], 1, 4),
        SparseMatrix::new(&[(0, 0, f(1))], 1, 4),
        SparseMatrix::new(&[(0, 1, f(1))], 1, 4),
    )
    .unwrap()
}

#[test]
fn a_solution_satisfies() {
    let S = tiny_r1cs::<P>(3);
    let ck = key(&S);
    let (U, W) = cubic(&S, &ck, 3);
    assert_eq!(U.X, fs(&[3, 35]));
    assert_eq!(S.is_sat(&ck, &U, &W), Ok(()));
}

#[test]
fn a_wrong_output_is_unsat() {
    let S = tiny_r1cs::<P>(3);
    let ck = key(&S);
    let (mut U, W) = cubic(&S, &ck, 3);
    U.X[1] = f(36);
    assert_eq!(S.is_sat(&ck, &U, &W), Err(NovaError::UnSat));
}

#[test]
fn a_wrong_commitment_is_unsat() {
    let S = tiny_r1cs::<P>(3);
    let ck = key(&S);
    let (mut U, W) = cubic(&S, &ck, 3);
    U.comm_W = U.comm_W.add(Linear(f(1)));
    assert_eq!(S.is_sat(&ck, &U, &W), Err(NovaError::UnSat));
}

#[test]
fn a_wrong_witness_is_unsat_though_committed_to() {
    let S = tiny_r1cs::<P>(3);
    let ck = key(&S);
    let (mut U, mut W) = cubic(&S, &ck, 3);
    W.W[2] = f(31);
    U.comm_W = W.commit(&ck);
    assert_eq!(S.is_sat(&ck, &U, &W), Err(NovaError::UnSat));
}

fn fold_and_check<E: Engine>() {
    let S = tiny_r1cs::<E>(3);
    let ck = key(&S);
    let mut U = RelaxedR1CSInstance::default(&ck, &S);
    let mut W = RelaxedR1CSWitness::default(&S);
    assert_eq!(S.is_sat_relaxed(&ck, &U, &W), Ok(()));
    for (x, r) in [(3, 1000), (5, 1), (7, 123_456_789)] {
        let (U2, W2) = cubic(&S, &ck, x);
        let r = <E::Scalar as Scalar>::from_u64(r);
        let (T, comm_T) = S.commit_T(&ck, &U, &W, &U2, &W2).unwrap();
        U = U.fold(&U2, &comm_T, &r);
        W = W.fold(&W2, &T, &r).unwrap();
        assert_eq!(S.is_sat_relaxed(&ck, &U, &W), Ok(()));
    }
    W.E[0] = W.E[0].add(<E::Scalar as Scalar>::one());
    assert_eq!(S.is_sat_relaxed(&ck, &U, &W), Err(NovaError::UnSat));
}

#[test]
fn folded_solutions_satisfy() {
    fold_and_check::<PallasEngine>();
    fold_and_check::<Bn256EngineKZG>();
    fold_and_check::<Secp256k1Engine>();
}

#[test]
fn folding_with_a_wrong_cross_term_is_unsat() {
    let S = tiny_r1cs::<P>(3);
    let ck = key(&S);
    let (U1, W1) = cubic(&S, &ck, 2);
    let U1 = RelaxedR1CSInstance::from_r1cs_instance(&ck, &S, U1);
    let W1 = RelaxedR1CSWitness::from_r1cs_witness(&S, W1);
    let (U2, W2) = cubic(&S, &ck, 3);
    let (mut T, _) = S.commit_T(&ck, &U1, &W1, &U2, &W2).unwrap();
    T[1] = T[1].add(f(1));
    let comm_T = LinearSchemeOver::commit(&ck, &T);
    let U = U1.fold(&U2, &comm_T, &f(11));
    let W = W1.fold(&W2, &T, &f(11)).unwrap();
    assert_eq!(S.is_sat_relaxed(&ck, &U, &W), Err(NovaError::UnSat));
}

/// The commitment scheme of the Pallas engine.
struct LinearSchemeOver;

impl LinearSchemeOver {
    fn commit(ck: &Key<F>, v: &[F]) -> Linear<F> {
        <LinearScheme as CommitmentEngineTrait<F, Recorder<FieldElem<pasta_curves::Fp>>>>::commit(
            ck, v,
        )
    }
}

#[test]
fn folded_parts_are_weighted_sums() {
    let U1 = RelaxedR1CSInstance::<P> {
        comm_W: Linear(f(10)),
        comm_E: Linear(f(20)),
        X: fs(&[1, 2]),
        u: f(4),
    };
    let U2 = R1CSInstance::<P> { comm_W: Linear(f(3)), X: fs(&[5, 6]) };
    let U = U1.fold(&U2, &Linear(f(7)), &f(100));
    assert_eq!(U.comm_W, Linear(f(310)));
    assert_eq!(U.comm_E, Linear(f(720)));
    assert_eq!(U.X, fs(&[501, 602]));
    assert_eq!(U.u, f(104));
    let mut in_place = U1.clone();
    in_place.fold_mut(&U2, &Linear(f(7)), &f(100));
    assert_eq!(in_place, U);

    let W1 = RelaxedR1CSWitness::<P> { W: fs(&[1, 2]), E: fs(&[3]) };
    let W2 = R1CSWitness::<P> { W: fs(&[8, 9]) };
    let W = W1.fold(&W2, &fs(&[5]), &f(10)).unwrap();
    assert_eq!(W.W, fs(&[81, 92]));
    assert_eq!(W.E, fs(&[53]));
    let mut in_place = W1.clone();
    assert_eq!(in_place.fold_mut(&W2, &fs(&[5]), &f(10)), Ok(()));
    assert_eq!(in_place, W);
}

#[test]
fn folding_stops_at_the_shorter_cross_term_and_instance() {
    let W1 = RelaxedR1CSWitness::<P> { W: fs(&[1]), E: fs(&[3, 4]) };
    let W2 = R1CSWitness::<P> { W: fs(&[2]) };
    assert_eq!(W1.fold(&W2, &fs(&[5]), &f(10)).unwrap().E, fs(&[53]));
    let U1 = RelaxedR1CSInstance::<P> {
        comm_W: Linear(f(0)),
        comm_E: Linear(f(0)),
        X: fs(&[1, 2]),
        u: f(1),
    };
    let U2 = R1CSInstance::<P> { comm_W: Linear(f(0)), X: fs(&[5, 6, 7]) };
    assert_eq!(U1.fold(&U2, &Linear(f(0)), &f(1)).X, fs(&[6, 8]));
}

#[test]
fn witnesses_of_different_lengths_do_not_fold() {
    let mut W1 = RelaxedR1CSWitness::<P> { W: fs(&[1, 2]), E: fs(&[3]) };
    let before = W1.clone();
    let W2 = R1CSWitness::<P> { W: fs(&[8]) };
    assert_eq!(W1.fold(&W2, &fs(&[5]), &f(10)), Err(NovaError::InvalidWitnessLength));
    assert_eq!(W1.fold_mut(&W2, &fs(&[5]), &f(10)), Err(NovaError::InvalidWitnessLength));
    assert_eq!(W1, before);
}

#[test]
fn the_cross_term_has_the_mixed_products() {
    let S = square();
    let ck = key(&S);
    let U1 = RelaxedR1CSInstance::<P> {
        comm_W: Linear(f(0)),
        comm_E: Linear(f(0)),
        X: fs(&[0]),
        u: f(6),
    };
    let W1 = RelaxedR1CSWitness::<P> { W: fs(&[20, 7]), E: fs(&[0]) };
    let U2 = R1CSInstance::<P> { comm_W: Linear(f(0)), X: fs(&[0]) };
    let W2 = R1CSWitness::<P> { W: fs(&[3, 9]) };
    // 20 * 3 + 3 * 20 - 6 * 9 - 7
    let (T, comm_T) = S.commit_T(&ck, &U1, &W1, &U2, &W2).unwrap();
    assert_eq!(T, fs(&[59]));
    assert_eq!(comm_T, LinearSchemeOver::commit(&ck, &T));
}

#[test]
fn the_buffered_cross_term_agrees() {
    let S = tiny_r1cs::<P>(3);
    let ck = key(&S);
    let (U1, W1) = cubic(&S, &ck, 2);
    let U1 = RelaxedR1CSInstance::from_r1cs_instance(&ck, &S, U1);
    let W1 = RelaxedR1CSWitness::from_r1cs_witness(&S, W1);
    let (U2, W2) = cubic(&S, &ck, 3);
    let (T, comm_T) = S.commit_T(&ck, &U1, &W1, &U2, &W2).unwrap();
    let mut buffer = fs(&[1, 2, 3, 4, 5, 6]);
    let mut first = R1CSResult::default(&S);
    let mut second = R1CSResult::default(&S);
    let c = S.commit_T_into(&ck, &U1, &W1, &U2, &W2, &mut buffer, &mut first, &mut second);
    assert_eq!(c, Ok(comm_T));
    assert_eq!(buffer, T);
    // z1 = (4, 8, 10, 1, 2, 15) and z2 = (9, 27, 30, 1, 3, 35)
    assert_eq!(first.AZ, fs(&[2, 4, 10, 15]));
    assert_eq!(first.BZ, fs(&[2, 2, 1, 1]));
    assert_eq!(first.CZ, fs(&[4, 8, 10, 15]));
    assert_eq!(second.AZ, fs(&[3, 9, 30, 35]));
    assert_eq!(second.BZ, fs(&[3, 3, 1, 1]));
    assert_eq!(second.CZ, fs(&[9, 27, 30, 35]));
    // 2 * 3 + 3 * 2 - 9 - 4, 4 * 3 + 9 * 2 - 27 - 8, 10 + 30 - 30 - 10, 15 + 35 - 35 - 15
    assert_eq!(T, vec![f(0).sub(f(1)), f(0).sub(f(5)), f(0), f(0)]);
}

#[test]
fn the_cross_term_refuses_wrong_lengths() {
    let S = tiny_r1cs::<P>(3);
    let ck = key(&S);
    let (U1, W1) = cubic(&S, &ck, 2);
    let U1 = RelaxedR1CSInstance::from_r1cs_instance(&ck, &S, U1);
    let W1 = RelaxedR1CSWitness::from_r1cs_witness(&S, W1);
    let (U2, W2) = cubic(&S, &ck, 3);
    let short = R1CSWitness::<P> { W: fs(&[1]) };
    let long = R1CSInstance::<P> { comm_W: U2.comm_W, X: fs(&[1, 2, 3]) };
    let wide = RelaxedR1CSWitness::<P> { W: fs(&[1, 2, 3, 4]), E: fs(&[0, 0, 0, 0]) };
    let refused = Some(NovaError::InvalidWitnessLength);
    assert_eq!(S.commit_T(&ck, &U1, &W1, &U2, &short).err(), refused);
    assert_eq!(S.commit_T(&ck, &U1, &W1, &long, &W2).err(), refused);
    assert_eq!(S.commit_T(&ck, &U1, &wide, &U2, &W2).err(), refused);

    let mut T = fs(&[9]);
    let mut first = R1CSResult::default(&S);
    let mut second = R1CSResult::default(&S);
    let r = S.commit_T_into(&ck, &U1, &wide, &U2, &W2, &mut T, &mut first, &mut second);
    assert_eq!(r.err(), refused);
    assert_eq!(T, fs(&[9]));
    assert_eq!(first, R1CSResult::default(&S));
    assert_eq!(second, R1CSResult::default(&S));

    let r = S.commit_T_into(&ck, &U1, &W1, &U2, &short, &mut T, &mut first, &mut second);
    assert_eq!(r.err(), refused);
    assert_eq!(T, fs(&[9]));
    assert_eq!(first.AZ, fs(&[2, 4, 10, 15]));
    assert_eq!(second, R1CSResult::default(&S));
}

#[test]
fn an_empty_buffer_for_the_cross_term() {
    let S = tiny_r1cs::<P>(3);
    let T = default_T(&S);
    assert!(T.is_empty());
    assert!(T.capacity() >= 4);
}

#[test]
fn zeros_satisfy_the_default_instance() {
    let S = tiny_r1cs::<P>(3);
    let ck = key(&S);
    let U = RelaxedR1CSInstance::default(&ck, &S);
    let W = RelaxedR1CSWitness::default(&S);
    assert_eq!((U.u, U.comm_W, U.comm_E), (f(0), Linear(f(0)), Linear(f(0))));
    assert_eq!(U.X, fs(&[0, 0]));
    assert_eq!(W.W, fs(&[0, 0, 0]));
    assert_eq!(W.E, fs(&[0, 0, 0, 0]));
    assert_eq!(S.is_sat_relaxed(&ck, &U, &W), Ok(()));
}

#[test]
fn a_relaxed_solution_satisfies() {
    let S = tiny_r1cs::<P>(3);
    let ck = key(&S);
    let (U, W) = cubic(&S, &ck, 3);
    let unchecked = RelaxedR1CSInstance::<P>::from_r1cs_instance_unchecked(&U.comm_W, &U.X);
    let U = RelaxedR1CSInstance::from_r1cs_instance(&ck, &S, U);
    assert_eq!(U, unchecked);
    assert_eq!(U.u, f(1));
    let mut W = RelaxedR1CSWitness::from_r1cs_witness(&S, W);
    assert_eq!(W.E, fs(&[0, 0, 0, 0]));
    assert_eq!(S.is_sat_relaxed(&ck, &U, &W), Ok(()));
    let (comm_W, comm_E) = W.commit(&ck);
    assert_eq!((comm_W, comm_E), (U.comm_W, U.comm_E));
    W.W[0] = f(10);
    assert_eq!(S.is_sat_relaxed(&ck, &U, &W), Err(NovaError::UnSat));
}

#[test]
fn a_wrong_error_commitment_is_unsat() {
    let S = tiny_r1cs::<P>(3);
    let ck = key(&S);
    let (U, W) = cubic(&S, &ck, 3);
    let mut U = RelaxedR1CSInstance::from_r1cs_instance(&ck, &S, U);
    let W = RelaxedR1CSWitness::from_r1cs_witness(&S, W);
    U.comm_E = Linear(f(1));
    assert_eq!(S.is_sat_relaxed(&ck, &U, &W), Err(NovaError::UnSat));
}

#[test]
fn padding_keeps_satisfaction() {
    let S = tiny_r1cs::<P>(3);
    let padded = S.pad();
    let ck = key(&padded);
    let (U, W) = cubic(&S, &ck, 3);
    let U = RelaxedR1CSInstance::from_r1cs_instance(&ck, &S, U);
    let mut W = RelaxedR1CSWitness::from_r1cs_witness(&S, W).pad(&padded);
    assert_eq!(W.W, fs(&[9, 27, 30, 0]));
    assert_eq!(W.E, fs(&[0, 0, 0, 0]));
    assert_eq!(padded.is_sat_relaxed(&ck, &U, &W), Ok(()));
    W.W[1] = f(28);
    assert_eq!(padded.is_sat_relaxed(&ck, &U, &W), Err(NovaError::UnSat));
}

#[test]
fn padding_twice_is_padding_once() {
    let padded = tiny_r1cs::<P>(3).pad();
    assert_eq!(padded.pad(), padded);
}

#[test]
fn padding_puts_columns_in_and_rows_below() {
    // two constraints over three variables and one input
    let M = SparseMatrix::new(&[(0, 0, f(5)), (0, 3, f(6)), (1, 4, f(7))], 2, 5);
    let S = R1CSShape::<P>::new(2, 3, 1, M.clone(), M.clone(), M).unwrap();
    assert!(!S.is_regular_shape());
    let padded = S.pad();
    assert!(padded.is_regular_shape());
    assert_eq!((padded.num_cons, padded.num_vars, padded.num_io), (4, 4, 1));
    assert_eq!(padded.A.data, fs(&[5, 6, 7]));
    assert_eq!(padded.A.indices, vec![0, 4, 5]);
    assert_eq!(padded.A.indptr, vec![0, 2, 3, 3, 3]);
    assert_eq!(padded.A.cols, 6);
    assert_eq!(padded.B, padded.A);
    assert_eq!(padded.C, padded.A);
}

#[test]
fn padding_of_enough_variables_only_counts_constraints() {
    let M = SparseMatrix::new(&[(0, 0, f(5)), (2, 4, f(7))], 3, 6);
    let S = R1CSShape::<P>::new(3, 4, 1, M.clone(), M.clone(), M.clone()).unwrap();
    let padded = S.pad();
    assert!(padded.is_regular_shape());
    assert_eq!((padded.num_cons, padded.num_vars, padded.num_io), (4, 4, 1));
    assert_eq!(padded.A, M);
}

#[test]
fn padding_exceeds_the_inputs() {
    let shape = |cons: usize, vars: usize, io: usize| {
        let M = SparseMatrix::new(&[], cons, vars + io + 1);
        R1CSShape::<P>::new(cons, vars, io, M.clone(), M.clone(), M).unwrap()
    };
    let sizes = |S: R1CSShape<P>| (S.num_cons, S.num_vars, S.num_io);
    for (cons, vars, io, padded) in
        [(3, 3, 4, 8), (3, 3, 3, 4), (4, 4, 4, 8), (0, 0, 0, 1), (1, 2, 5, 8), (5, 8, 8, 16)]
    {
        let S = shape(cons, vars, io).pad();
        assert!(S.is_regular_shape());
        assert_eq!(sizes(S), (padded, padded, io));
    }
}

#[test]
fn padding_of_a_regular_shape_keeps_its_digest() {
    let mut S = tiny_r1cs::<P>(4);
    assert!(S.is_regular_shape());
    assert_eq!(S.digest(|_| Ok::<F, ()>(f(77))), Ok(f(77)));
    let mut padded = S.pad();
    assert_eq!(padded, S);
    assert_eq!(padded.digest(|_| Err::<F, ()>(())), Ok(f(77)));
    let mut other = tiny_r1cs::<P>(3);
    assert_eq!(other.digest(|_| Ok::<F, ()>(f(77))), Ok(f(77)));
    assert_eq!(other.pad().digest(|_| Err::<F, ()>(())), Err(()));
}

#[test]
fn regular_shapes_have_powers_of_two() {
    let shape = |cons: usize, vars: usize, io: usize| {
        let M = SparseMatrix::new(&[], cons, vars + io + 1);
        R1CSShape::<P>::new(cons, vars, io, M.clone(), M.clone(), M).unwrap()
    };
    assert!(shape(4, 4, 2).is_regular_shape());
    assert!(shape(1, 8, 7).is_regular_shape());
    assert!(!shape(3, 4, 2).is_regular_shape());
    assert!(!shape(4, 6, 2).is_regular_shape());
    assert!(!shape(4, 4, 4).is_regular_shape());
    assert!(!shape(4, 4, 5).is_regular_shape());
    assert!(!shape(0, 4, 1).is_regular_shape());
}

#[test]
fn the_digest_is_computed_once() {
    let mut S = tiny_r1cs::<P>(3);
    let mut calls = 0;
    assert_eq!(S.digest(|_| Err::<F, u8>(9)), Err(9));
    let first = S.digest(|_| {
        calls += 1;
        Ok::<F, u8>(f(5).sub(f(6)))
    });
    assert_eq!(first, Ok(f(5).sub(f(6))));
    let second = S.digest(|_| {
        calls += 1;
        Ok::<F, u8>(f(8))
    });
    assert_eq!(second, first);
    assert_eq!(calls, 1);
    let mut copy = S.clone();
    assert_eq!(copy, S);
    assert_eq!(copy.digest(|_| Err::<F, u8>(1)), first);
}

#[test]
fn entries_outside_the_shape_are_refused() {
    let good = SparseMatrix::new(&[(1, 3, f(1))], 2, 4);
    let low = SparseMatrix::new(&[(2, 0, f(1))], 3, 4);
    let right = SparseMatrix::new(&[(1, 0, f(1)), (1, 4, f(1))], 2, 5);
    let make = |A: &SparseMatrix<F>, B: &SparseMatrix<F>, C: &SparseMatrix<F>| {
        R1CSShape::<P>::new(2, 2, 1, A.clone(), B.clone(), C.clone())
    };
    assert!(make(&good, &good, &good).is_ok());
    for bad in [&low, &right] {
        assert_eq!(make(bad, &good, &good), Err(NovaError::InvalidIndex));
        assert_eq!(make(&good, bad, &good), Err(NovaError::InvalidIndex));
        assert_eq!(make(&good, &good, bad), Err(NovaError::InvalidIndex));
    }
}

#[test]
fn products_with_a_vector() {
    let S = tiny_r1cs::<P>(3);
    let z = fs(&[9, 27, 30, 1, 3, 35]);
    let (Az, Bz, Cz) = S.multiply_vec(&z).unwrap();
    assert_eq!(Az, fs(&[3, 9, 30, 35]));
    assert_eq!(Bz, fs(&[3, 3, 1, 1]));
    assert_eq!(Cz, fs(&[9, 27, 30, 35]));
    let parts = S.multiply_witness(&z[..3], &z[3], &z[4..]).unwrap();
    assert_eq!(parts, (Az, Bz, Cz));
    let short = S.multiply_vec(&z[..5]);
    assert_eq!(short, Err(NovaError::InvalidWitnessLength));
    let long = S.multiply_vec(&fs(&[0, 0, 0, 0, 0, 0, 0]));
    assert_eq!(long, Err(NovaError::InvalidWitnessLength));
    assert_eq!(S.multiply_vec(&[]), Err(NovaError::InvalidWitnessLength));
}

#[test]
fn products_are_linear() {
    let S = tiny_r1cs::<P>(3);
    let (z1, z2) = (fs(&[1, 2, 3, 4, 5, 6]), fs(&[11, 7, 5, 3, 2, 1]));
    let r = f(1000);
    let combine = |a: &[F], b: &[F]| -> Vec<F> {
        a.iter().zip(b).map(|(x, y)| x.add(r.mul(*y))).collect()
    };
    let (a1, b1, c1) = S.multiply_vec(&z1).unwrap();
    let (a2, b2, c2) = S.multiply_vec(&z2).unwrap();
    let (a, b, c) = S.multiply_vec(&combine(&z1, &z2)).unwrap();
    assert_eq!(a, combine(&a1, &a2));
    assert_eq!(b, combine(&b1, &b2));
    assert_eq!(c, combine(&c1, &c2));
}

#[test]
fn products_with_a_witness_of_the_wrong_length() {
    let S = tiny_r1cs::<P>(3);
    let refused = Err(NovaError::InvalidWitnessLength);
    assert_eq!(S.multiply_witness(&fs(&[1, 2]), &f(1), &fs(&[1, 2])), refused);
    assert_eq!(S.multiply_witness(&fs(&[1, 2, 3]), &f(1), &fs(&[1])), refused);
    let mut result = R1CSResult::<P> { AZ: fs(&[1]), BZ: fs(&[2]), CZ: fs(&[3]) };
    let before = result.clone();
    let r = S.multiply_witness_into(&fs(&[1, 2, 3]), &f(1), &fs(&[1]), &mut result);
    assert_eq!(r, Err(NovaError::InvalidWitnessLength));
    assert_eq!(result, before);
}

#[test]
fn witnesses_and_instances_have_the_lengths_of_the_shape() {
    let S = tiny_r1cs::<P>(3);
    assert!(R1CSWitness::new(&S, fs(&[1, 2, 3])).is_ok());
    assert_eq!(R1CSWitness::new(&S, fs(&[1, 2])), Err(NovaError::InvalidWitnessLength));
    let c = Linear(f(4));
    let U = R1CSInstance::new(&S, c, fs(&[1, 2])).unwrap();
    assert_eq!((U.comm_W, U.X), (c, fs(&[1, 2])));
    assert_eq!(R1CSInstance::new(&S, c, fs(&[1, 2, 3])), Err(NovaError::InvalidInputLength));
}

#[test]
fn an_instance_is_absorbed_part_by_part() {
    let U = R1CSInstance::<P> { comm_W: Linear(f(4)), X: fs(&[5, 6]) };
    let mut ro = Recorder(vec![]);
    U.absorb_in_ro(&mut ro);
    let expected: Vec<_> = [4, 5, 6].iter().map(|n| FieldElem::from_u64(*n)).collect();
    assert_eq!(ro.0, expected);
}

#[test]
fn a_relaxed_instance_is_absorbed_in_limbs() {
    let mut repr = [0u8; 32];
    repr[0] = 1;
    repr[8] = 2;
    repr[17] = 3;
    repr[31] = 4;
    let U = RelaxedR1CSInstance::<P> {
        comm_W: Linear(f(11)),
        comm_E: Linear(f(12)),
        X: vec![PallasScalar::from_repr(repr).unwrap(), f(9)],
        u: f(13),
    };
    let mut ro = Recorder(vec![FieldElem::from_u64(99)]);
    U.absorb_in_ro(&mut ro);
    let expected: Vec<_> = [99, 11, 12, 13, 1, 2, 3 << 8, 4 << 56, 9, 0, 0, 0]
        .iter()
        .map(|n| FieldElem::from_u64(*n))
        .collect();
    assert_eq!(ro.0, expected);
}

#[test]
fn a_relaxed_instance_is_written_part_by_part() {
    let U = RelaxedR1CSInstance::<P> {
        comm_W: Linear(f(11)),
        comm_E: Linear(f(12)),
        X: fs(&[14, 15]),
        u: f(13),
    };
    let bytes = U.to_transcript_bytes();
    assert_eq!(bytes.len(), 5 * 32);
    for (i, n) in [11u8, 12, 13, 14, 15].iter().enumerate() {
        let mut expected = vec![0u8; 32];
        expected[0] = *n;
        assert_eq!(bytes[32 * i..32 * (i + 1)], expected[..]);
    }
}

#[test]
fn scalars_reduce_into_the_base_field() {
    // the scalar field is larger than the base field
    let largest = f(0).sub(f(1));
    let base: FieldElem<pasta_curves::Fp> = scalar_as_base(&largest);
    // the difference of the orders, less one
    let d = FieldElem::from_u64(0x47_afc1).mul(FieldElem(pasta_curves::Fp::from_u128(1 << 64)));
    let expected = d.add(FieldElem::from_u64(0xf319_ba34_0000_0000)).sub(FieldElem::from_u64(1));
    assert_eq!(base, expected);
    let small: FieldElem<pasta_curves::Fp> = scalar_as_base(&f(1234));
    assert_eq!(small, FieldElem::from_u64(1234));
}

#[test]
fn limbs_of_a_scalar() {
    let mut repr = [0u8; 32];
    for (i, b) in repr.iter_mut().enumerate() {
        *b = i as u8;
    }
    let x = PallasScalar::from_repr(repr).unwrap();
    assert_eq!(
        scalar_limbs(&x),
        fs(&[
            0x0706_0504_0302_0100,
            0x0f0e_0d0c_0b0a_0908,
            0x1716_1514_1312_1110,
            0x1f1e_1d1c_1b1a_1918,
        ])
    );
    let shift = f(1 << 32).mul(f(1 << 32));
    let l = scalar_limbs(&x);
    let sum = l[3].mul(shift).add(l[2]).mul(shift).add(l[1]).mul(shift).add(l[0]);
    assert_eq!(sum, x);
}

#[test]
fn the_key_has_a_generator_for_everything() {
    let S = tiny_r1cs::<P>(3);
    let ck = R1CS::<P>::commitment_key(&S, &|s: &R1CSShape<P>| s.num_io);
    assert_eq!(ck.label, b"ck".to_vec());
    assert_eq!(ck.generators.len(), 4);
    let S = tiny_r1cs::<P>(9);
    assert_eq!(key(&S).generators.len(), 9);
    let floor: Box<CommitmentKeyHint<P>> = Box::new(|s| 100 + s.num_cons);
    let ck = R1CS::<P>::commitment_key(&S, &*floor);
    assert_eq!(ck.generators.len(), 104);
}

#[test]
fn a_matrix_keeps_the_order_within_rows() {
    let list = [(2, 5, f(1)), (0, 3, f(2)), (2, 1, f(3)), (0, 4, f(4))];
    let M = SparseMatrix::new(&list, 3, 6);
    assert_eq!(M.data, fs(&[2, 4, 1, 3]));
    assert_eq!(M.indices, vec![3, 4, 5, 1]);
    assert_eq!(M.indptr, vec![0, 2, 2, 4]);
    assert_eq!(M.cols, 6);
    assert_eq!(M.clone(), M);
    assert_eq!(M.multiply_vec(&fs(&[1, 10, 100, 1000, 10000, 100000])), fs(&[42000, 0, 100030]));
}

#[test]
fn a_result_of_zeros() {
    let S = tiny_r1cs::<P>(3);
    let r = R1CSResult::default(&S);
    assert_eq!(r.AZ, fs(&[0, 0, 0, 0]));
    assert_eq!(r.BZ, fs(&[0, 0, 0, 0]));
    assert_eq!(r.CZ, fs(&[0, 0, 0, 0]));
}

#[test]
fn products_with_zeros_are_zeros() {
    let S = tiny_r1cs::<P>(3);
    let zeros = fs(&[0, 0, 0, 0]);
    let products = S.multiply_vec(&fs(&[0, 0, 0, 0, 0, 0])).unwrap();
    assert_eq!(products, (zeros.clone(), zeros.clone(), zeros));
}

#[test]
fn padded_products_have_zeros_below() {
    let M = SparseMatrix::new(&[(0, 0, f(5)), (0, 3, f(6)), (1, 4, f(7))], 2, 5);
    let S = R1CSShape::<P>::new(2, 3, 1, M.clone(), M.clone(), M).unwrap();
    let (Az, _, _) = S.multiply_vec(&fs(&[1, 2, 3, 4, 5])).unwrap();
    assert_eq!(Az, fs(&[29, 35]));
    let (Az, _, _) = S.pad().multiply_vec(&fs(&[1, 2, 3, 0, 4, 5])).unwrap();
    assert_eq!(Az, fs(&[29, 35, 0, 0]));
}

#[test]
fn rows_that_do_not_tile_the_entries() {
    let M = SparseMatrix::new(&[(0, 0, f(5)), (1, 1, f(6))], 2, 2);
    assert!(M.is_well_formed());
    let with_indptr = |indptr: Vec<usize>| SparseMatrix { indptr, ..M.clone() };
    assert!(with_indptr(vec![0, 2]).is_well_formed());
    assert!(!with_indptr(vec![]).is_well_formed());
    assert!(!with_indptr(vec![1, 2]).is_well_formed());
    assert!(!with_indptr(vec![0, 1]).is_well_formed());
    assert!(!with_indptr(vec![0, 2, 1, 2]).is_well_formed());
    assert!(!SparseMatrix { data: fs(&[5]), ..M.clone() }.is_well_formed());
}

#[test]
fn an_element_and_a_multiple() {
    assert_eq!(combine_elements(f(3), f(10), f(4)), f(43));
    assert_eq!(combine_elements(f(1), f(0).sub(f(1)), f(2)), f(0).sub(f(1)));
}

#[test]
fn equal_shapes_have_equal_digests() {
    let digest = |s: &R1CSShape<P>| Ok::<F, ()>(f((s.num_vars * 100 + s.A.indices.len()) as u64));
    let mut S = tiny_r1cs::<P>(3);
    assert_eq!(S.digest(digest), Ok(f(306)));
    let mut padded = S.pad();
    let mut expected = tiny_r1cs::<P>(4);
    assert_eq!(expected.digest(digest), Ok(f(406)));
    assert_eq!(padded.digest(digest), Ok(f(406)));
    assert_eq!(padded.clone().digest(|_| Err(())), Ok(f(406)));
    assert_eq!(padded.digest(|_| Err(())), Ok(f(406)));
}

#[test]
fn a_shape_whose_fields_were_changed_may_not_be_well_formed() {
    let mut S = tiny_r1cs::<P>(3);
    assert!(S.is_well_formed());
    S.num_io = 1;
    assert!(!S.is_well_formed());
    let mut S = tiny_r1cs::<P>(3);
    S.num_cons = 3;
    assert!(!S.is_well_formed());
    let mut S = tiny_r1cs::<P>(3);
    S.C.indptr.clear();
    assert!(!S.is_well_formed());
}
