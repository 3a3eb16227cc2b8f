//! The shape of an R1CS: its constraint matrices and what is checked and computed with them.
use super::digest::KeptDigest;
use super::sparse::{assignment, entries_within, lemma_same_rows, product, SparseMatrix};
use crate::errors::NovaError;
use crate::field::{filled, values, zeros, Scalar};
use crate::powers::{checked_next_power_of_two, is_power_of_two, law_next_power_of_two};
use crate::traits::Engine;
use vstd::prelude::*;

verus! {

/// The shape of the R1CS matrices.
#[derive(Debug, PartialEq, Eq)]
pub struct R1CSShape<E: Engine> {
    /// The number of constraints.
    pub num_cons: usize,
    /// The number of variables.
    pub num_vars: usize,
    /// The number of public inputs and outputs.
    pub num_io: usize,
    /// The left factors of the constraints.
    pub A: SparseMatrix<E::Scalar>,
    /// The right factors of the constraints.
    pub B: SparseMatrix<E::Scalar>,
    /// The results of the constraints.
    pub C: SparseMatrix<E::Scalar>,
    /// The digest of the shape, once it has been computed.
    pub digest: KeptDigest<E::Scalar>,
}

/// The products of the three matrices with a vector.
#[derive(Clone, Debug, PartialEq, Eq)]
pub struct R1CSResult<E: Engine> {
    /// The product with `A`.
    pub AZ: Vec<E::Scalar>,
    /// The product with `B`.
    pub BZ: Vec<E::Scalar>,
    /// The product with `C`.
    pub CZ: Vec<E::Scalar>,
}

impl<E: Engine> R1CSResult<E> {
    /// A result for a shape that holds zeros throughout.
    pub fn default(S: &R1CSShape<E>) -> (r: R1CSResult<E>)
        ensures
            values(r.AZ@) == zeros(S.num_cons as nat),
            values(r.BZ@) == zeros(S.num_cons as nat),
            values(r.CZ@) == zeros(S.num_cons as nat),
    {
        let zero = E::Scalar::zero();
        let r = R1CSResult {
            AZ: filled(zero, S.num_cons),
            BZ: filled(zero, S.num_cons),
            CZ: filled(zero, S.num_cons),
        };
        assert(values(r.AZ@) =~= zeros(S.num_cons as nat));
        assert(values(r.BZ@) =~= zeros(S.num_cons as nat));
        assert(values(r.CZ@) =~= zeros(S.num_cons as nat));
        r
    }
}

impl<E: Engine> Clone for R1CSShape<E> {
    fn clone(&self) -> (r: Self)
        ensures
            r.num_cons == self.num_cons,
            r.num_vars == self.num_vars,
            r.num_io == self.num_io,
            r.A.same(&self.A),
            r.B.same(&self.B),
            r.C.same(&self.C),
            r.same_constraints(self),
            r.kept_digest() == self.kept_digest(),
            r.wf() == self.wf(),
    {
        let r = R1CSShape {
            num_cons: self.num_cons,
            num_vars: self.num_vars,
            num_io: self.num_io,
            A: self.A.clone(),
            B: self.B.clone(),
            C: self.C.clone(),
            digest: self.digest.copy(),
        };
        proof {
            lemma_same_rows(r.A, self.A);
            lemma_same_rows(r.B, self.B);
            lemma_same_rows(r.C, self.C);
        }
        r
    }
}

/// Whether every entry of a matrix lies in one of the first `num_cons` rows and in one of the
/// columns of a vector of `num_vars` variables, one scalar and `num_io` inputs and outputs.
fn is_valid<S: Scalar>(num_cons: usize, num_vars: usize, num_io: usize, M: &SparseMatrix<S>) -> (r:
    bool)
    requires
        M.wf(),
    ensures
        r == entries_within(M.rows(), num_cons as nat, (num_io + num_vars + 1) as nat),
{
    let n = M.indptr.len() - 1;
    let ghost rows = M.rows();
    let ghost width = (num_io + num_vars + 1) as nat;
    let mut row: usize = 0;
    while row < n
        invariant
            M.wf(),
            rows == M.rows(),
            width == num_io + num_vars + 1,
            n == rows.len(),
            row <= n,
            entries_within(rows.take(row as int), num_cons as nat, width),
        decreases n - row,
    {
        let start = M.indptr[row];
        let end = M.indptr[row + 1];
        assert(M.indptr@[row + 1] <= M.indptr@.last());
        assert(rows[row as int] == M.row(row as int));
        let mut k: usize = start;
        while k < end
            invariant
                M.wf(),
                rows == M.rows(),
                width == num_io + num_vars + 1,
                row < n == rows.len(),
                start == M.indptr@[row as int],
                end == M.indptr@[row + 1],
                start <= k <= end <= M.indices@.len(),
                rows[row as int] == M.row(row as int),
                k > start ==> row < num_cons,
                forall|j: int| 0 <= j < k - start ==> (#[trigger] rows[row as int][j]).0 < width,
            decreases end - k,
        {
            let col = M.indices[k];
            assert(rows[row as int][k - start].0 == col);
            if row >= num_cons || (col > num_io && col - num_io > num_vars) {
                return false;
            }
            k += 1;
        }
        proof {
            let next = rows.take(row + 1);
            assert forall|i: int, k: int| 0 <= i < next.len() && 0 <= k < next[i].len() implies (
            #[trigger] next[i][k]).0 < width && i < num_cons by {
                if i < row {
                    assert(rows.take(row as int)[i][k] == next[i][k]);
                }
            }
        }
        row += 1;
    }
    assert(rows.take(n as int) =~= rows);
    true
}

impl<E: Engine> R1CSShape<E> {
    /// The matrices are well formed, and their entries lie within the shape.
    pub open spec fn wf(&self) -> bool {
        &&& self.A.wf()
        &&& self.B.wf()
        &&& self.C.wf()
        &&& entries_within(self.A.rows(), self.num_cons as nat, self.width())
        &&& entries_within(self.B.rows(), self.num_cons as nat, self.width())
        &&& entries_within(self.C.rows(), self.num_cons as nat, self.width())
    }

    /// The length of the vectors that the matrices multiply.
    pub open spec fn width(&self) -> nat {
        (self.num_io + self.num_vars + 1) as nat
    }

    /// The digest that the shape keeps.
    pub open spec fn kept_digest(&self) -> Option<nat> {
        self.digest.kept()
    }

    /// Two shapes have the same sizes and matrices.
    pub open spec fn same_constraints(&self, other: &Self) -> bool {
        &&& self.num_cons == other.num_cons
        &&& self.num_vars == other.num_vars
        &&& self.num_io == other.num_io
        &&& self.A.rows() == other.A.rows()
        &&& self.B.rows() == other.B.rows()
        &&& self.C.rows() == other.C.rows()
        &&& self.A.cols == other.A.cols
        &&& self.B.cols == other.B.cols
        &&& self.C.cols == other.C.cols
    }

    /// Creates a shape from explicitly given matrices.
    pub fn new(
        num_cons: usize,
        num_vars: usize,
        num_io: usize,
        A: SparseMatrix<E::Scalar>,
        B: SparseMatrix<E::Scalar>,
        C: SparseMatrix<E::Scalar>,
    ) -> (r: Result<R1CSShape<E>, NovaError>)
        requires
            A.wf(),
            B.wf(),
            C.wf(),
        ensures
            r is Ok <==> {
                let width = (num_io + num_vars + 1) as nat;
                &&& entries_within(A.rows(), num_cons as nat, width)
                &&& entries_within(B.rows(), num_cons as nat, width)
                &&& entries_within(C.rows(), num_cons as nat, width)
            },
            r matches Ok(s) ==> {
                &&& s.wf()
                &&& s.num_cons == num_cons
                &&& s.num_vars == num_vars
                &&& s.num_io == num_io
                &&& s.A == A
                &&& s.B == B
                &&& s.C == C
                &&& s.kept_digest() is None
            },
            r matches Err(e) ==> e == NovaError::InvalidIndex,
    {
        if !is_valid(num_cons, num_vars, num_io, &A) {
            return Err(NovaError::InvalidIndex);
        }
        if !is_valid(num_cons, num_vars, num_io, &B) {
            return Err(NovaError::InvalidIndex);
        }
        if !is_valid(num_cons, num_vars, num_io, &C) {
            return Err(NovaError::InvalidIndex);
        }
        Ok(R1CSShape::undigested(num_cons, num_vars, num_io, A, B, C))
    }

    /// A shape of the given sizes and matrices that keeps no digest.
    pub(crate) fn undigested(
        num_cons: usize,
        num_vars: usize,
        num_io: usize,
        A: SparseMatrix<E::Scalar>,
        B: SparseMatrix<E::Scalar>,
        C: SparseMatrix<E::Scalar>,
    ) -> (r: R1CSShape<E>)
        ensures
            r.num_cons == num_cons,
            r.num_vars == num_vars,
            r.num_io == num_io,
            r.A == A,
            r.B == B,
            r.C == C,
            r.kept_digest() is None,
    {
        R1CSShape { num_cons, num_vars, num_io, A, B, C, digest: KeptDigest::empty() }
    }

    /// Checks that the matrices are well formed and that their entries lie within the shape.
    pub fn is_well_formed(&self) -> (r: bool)
        ensures
            r == self.wf(),
    {
        self.A.is_well_formed() && self.B.is_well_formed() && self.C.is_well_formed() && is_valid(
            self.num_cons,
            self.num_vars,
            self.num_io,
            &self.A,
        ) && is_valid(self.num_cons, self.num_vars, self.num_io, &self.B) && is_valid(
            self.num_cons,
            self.num_vars,
            self.num_io,
            &self.C,
        )
    }

    /// Two shapes have the same fields but perhaps for the digest that they keep.
    pub open spec fn differs_only_in_digest(&self, other: &Self) -> bool {
        &&& self.num_cons == other.num_cons
        &&& self.num_vars == other.num_vars
        &&& self.num_io == other.num_io
        &&& self.A == other.A
        &&& self.B == other.B
        &&& self.C == other.C
    }

    /// The shape is another one without the digest that it keeps.
    pub open spec fn undigested_form_of(&self, other: &Self) -> bool {
        &&& self.differs_only_in_digest(other)
        &&& self.kept_digest() is None
    }

    /// A result and a shape are what comes of asking this shape for its digest: the digest that it
    /// keeps, or else what `compute` gives for it, which is then kept.
    pub open spec fn digests_to<X, F: FnOnce(&R1CSShape<E>) -> Result<E::Scalar, X>>(
        &self,
        compute: F,
        r: Result<E::Scalar, X>,
        after: Self,
    ) -> bool {
        &&& after.differs_only_in_digest(self)
        &&& match self.kept_digest() {
            Some(d) => {
                &&& r matches Ok(x) && x.value() == d
                &&& after.kept_digest() == Some(d)
            },
            None => match r {
                Ok(x) => {
                    &&& exists|s: &R1CSShape<E>, y: E::Scalar|
                        s.undigested_form_of(self) && #[trigger] compute.ensures((s,), Ok(y))
                            && y.value() == x.value()
                    &&& after.kept_digest() == Some(x.value())
                },
                Err(e) => {
                    &&& exists|s: &R1CSShape<E>|
                        s.undigested_form_of(self) && #[trigger] compute.ensures((s,), Err(e))
                    &&& after.kept_digest() is None
                },
            },
        }
    }

    /// Returns the digest of the shape. `compute` computes it from the shape on the first call;
    /// what that gives is kept, and later calls return it.
    pub fn digest<X, F: FnOnce(&R1CSShape<E>) -> Result<E::Scalar, X>>(&mut self, compute: F) -> (r:
        Result<E::Scalar, X>)
        requires
            forall|s: &R1CSShape<E>|
                s.undigested_form_of(old(self)) ==> #[trigger] compute.requires((s,)),
        ensures
            old(self).wf() ==> final(self).wf(),
            old(self).digests_to(compute, r, *final(self)),
    {
        let ghost before = *self;
        let mut kept = KeptDigest::empty();
        std::mem::swap(&mut self.digest, &mut kept);
        let shape: &R1CSShape<E> = self;
        assert(shape.undigested_form_of(&before));
        let (r, kept) = kept.get_or_compute(
            || -> (r: Result<E::Scalar, X>)
                requires
                    compute.requires((shape,)),
                ensures
                    compute.ensures((shape,), r)
                { compute(shape) },
        );
        self.digest = kept;
        r
    }

    /// The shape is regular where the numbers of constraints and of variables are powers of two
    /// and there are fewer inputs and outputs than variables.
    pub open spec fn regular(&self) -> bool {
        &&& is_power_of_two(self.num_cons as nat)
        &&& is_power_of_two(self.num_vars as nat)
        &&& self.num_io < self.num_vars
    }

    /// Checks the regularity conditions on the shape that Spartan-class SNARKs require.
    pub fn is_regular_shape(&self) -> (r: bool)
        ensures
            r == self.regular(),
    {
        proof {
            law_next_power_of_two(self.num_cons as nat);
            law_next_power_of_two(self.num_vars as nat);
        }
        let cons_valid = match checked_next_power_of_two(self.num_cons) {
            Some(p) => p == self.num_cons,
            None => false,
        };
        let vars_valid = match checked_next_power_of_two(self.num_vars) {
            Some(p) => p == self.num_vars,
            None => false,
        };
        let io_lt_vars = self.num_io < self.num_vars;
        cons_valid && vars_valid && io_lt_vars
    }

    /// The product of `A` with a vector.
    pub open spec fn az(&self, z: Seq<nat>) -> Seq<nat> {
        product(E::Scalar::modulus(), self.A.rows(), z)
    }

    /// The product of `B` with a vector.
    pub open spec fn bz(&self, z: Seq<nat>) -> Seq<nat> {
        product(E::Scalar::modulus(), self.B.rows(), z)
    }

    /// The product of `C` with a vector.
    pub open spec fn cz(&self, z: Seq<nat>) -> Seq<nat> {
        product(E::Scalar::modulus(), self.C.rows(), z)
    }

    /// A witness and public inputs and outputs have the lengths that the shape asks for.
    pub open spec fn fits(&self, W: Seq<E::Scalar>, X: Seq<E::Scalar>) -> bool {
        W.len() == self.num_vars && X.len() == self.num_io
    }

    /// Multiplies the three matrices by a vector.
    pub fn multiply_vec(&self, z: &[E::Scalar]) -> (r: Result<
        (Vec<E::Scalar>, Vec<E::Scalar>, Vec<E::Scalar>),
        NovaError,
    >)
        requires
            self.wf(),
        ensures
            r is Ok <==> z@.len() == self.num_io + self.num_vars + 1,
            r matches Ok(p) ==> {
                &&& values(p.0@) == self.az(values(z@))
                &&& values(p.1@) == self.bz(values(z@))
                &&& values(p.2@) == self.cz(values(z@))
            },
            r matches Err(e) ==> e == NovaError::InvalidWitnessLength,
    {
        if z.len() == 0 || z.len() - 1 < self.num_io || z.len() - 1 - self.num_io != self.num_vars {
            return Err(NovaError::InvalidWitnessLength);
        }
        let (Az, (Bz, Cz)) = rayon::join(
            || -> (v: Vec<E::Scalar>)
                ensures
                    values(v@) == self.az(values(z@))
                { self.A.multiply_vec(z) },
            || -> (v: (Vec<E::Scalar>, Vec<E::Scalar>))
                ensures
                    values(v.0@) == self.bz(values(z@)) && values(v.1@) == self.cz(values(z@))
                {
                    rayon::join(
                        || -> (v: Vec<E::Scalar>)
                            ensures
                                values(v@) == self.bz(values(z@))
                            { self.B.multiply_vec(z) },
                        || -> (v: Vec<E::Scalar>)
                            ensures
                                values(v@) == self.cz(values(z@))
                            { self.C.multiply_vec(z) },
                    )
                },
        );
        Ok((Az, Bz, Cz))
    }

    /// Multiplies the three matrices by the vector that a witness, a scalar and public inputs and
    /// outputs make up.
    pub fn multiply_witness(&self, W: &[E::Scalar], u: &E::Scalar, X: &[E::Scalar]) -> (r: Result<
        (Vec<E::Scalar>, Vec<E::Scalar>, Vec<E::Scalar>),
        NovaError,
    >)
        requires
            self.wf(),
        ensures
            r is Ok <==> self.fits(W@, X@),
            r matches Ok(p) ==> {
                let z = assignment(values(W@), u.value(), values(X@));
                &&& values(p.0@) == self.az(z)
                &&& values(p.1@) == self.bz(z)
                &&& values(p.2@) == self.cz(z)
            },
            r matches Err(e) ==> e == NovaError::InvalidWitnessLength,
    {
        if X.len() != self.num_io || W.len() != self.num_vars {
            return Err(NovaError::InvalidWitnessLength);
        }
        let ghost z = assignment(values(W@), u.value(), values(X@));
        let (Az, (Bz, Cz)) = rayon::join(
            || -> (v: Vec<E::Scalar>)
                ensures
                    values(v@) == self.az(z)
                { self.A.multiply_witness(W, u, X) },
            || -> (v: (Vec<E::Scalar>, Vec<E::Scalar>))
                ensures
                    values(v.0@) == self.bz(z) && values(v.1@) == self.cz(z)
                {
                    rayon::join(
                        || -> (v: Vec<E::Scalar>)
                            ensures
                                values(v@) == self.bz(z)
                            { self.B.multiply_witness(W, u, X) },
                        || -> (v: Vec<E::Scalar>)
                            ensures
                                values(v@) == self.cz(z)
                            { self.C.multiply_witness(W, u, X) },
                    )
                },
        );
        Ok((Az, Bz, Cz))
    }

    /// As `multiply_witness`, with the products in `ABC_Z` in place of what it held.
    pub fn multiply_witness_into(
        &self,
        W: &[E::Scalar],
        u: &E::Scalar,
        X: &[E::Scalar],
        ABC_Z: &mut R1CSResult<E>,
    ) -> (r: Result<(), NovaError>)
        requires
            self.wf(),
        ensures
            r is Ok <==> self.fits(W@, X@),
            r is Ok ==> {
                let z = assignment(values(W@), u.value(), values(X@));
                &&& values(final(ABC_Z).AZ@) == self.az(z)
                &&& values(final(ABC_Z).BZ@) == self.bz(z)
                &&& values(final(ABC_Z).CZ@) == self.cz(z)
            },
            r matches Err(e) ==> {
                &&& e == NovaError::InvalidWitnessLength
                &&& *final(ABC_Z) == *old(ABC_Z)
            },
    {
        if X.len() != self.num_io || W.len() != self.num_vars {
            return Err(NovaError::InvalidWitnessLength);
        }
        let ghost z = assignment(values(W@), u.value(), values(X@));
        let mut AZ: Vec<E::Scalar> = Vec::new();
        let mut BZ: Vec<E::Scalar> = Vec::new();
        let mut CZ: Vec<E::Scalar> = Vec::new();
        std::mem::swap(&mut ABC_Z.AZ, &mut AZ);
        std::mem::swap(&mut ABC_Z.BZ, &mut BZ);
        std::mem::swap(&mut ABC_Z.CZ, &mut CZ);
        let (AZ, (BZ, CZ)) = rayon::join(
            move || -> (v: Vec<E::Scalar>)
                ensures
                    values(v@) == self.az(z)
                {
                    let mut v = AZ;
                    self.A.multiply_witness_into(W, u, X, &mut v);
                    v
                },
            move || -> (v: (Vec<E::Scalar>, Vec<E::Scalar>))
                ensures
                    values(v.0@) == self.bz(z) && values(v.1@) == self.cz(z)
                {
                    rayon::join(
                        move || -> (v: Vec<E::Scalar>)
                            ensures
                                values(v@) == self.bz(z)
                            {
                                let mut v = BZ;
                                self.B.multiply_witness_into(W, u, X, &mut v);
                                v
                            },
                        move || -> (v: Vec<E::Scalar>)
                            ensures
                                values(v@) == self.cz(z)
                            {
                                let mut v = CZ;
                                self.C.multiply_witness_into(W, u, X, &mut v);
                                v
                            },
                    )
                },
        );
        ABC_Z.AZ = AZ;
        ABC_Z.BZ = BZ;
        ABC_Z.CZ = CZ;
        Ok(())
    }
}

} // verus!
