//! The digest that a shape keeps.
use crate::cell::{cell_contents, clone_cell, empty_cell, get_or_try_init};
use crate::field::{le_value, Scalar};
use core::marker::PhantomData;
use vstd::prelude::*;

verus! {

/// A digest, once it has been computed, as the bytes of a scalar.
#[derive(Debug, PartialEq, Eq)]
pub struct KeptDigest<S: Scalar> {
    cell: once_cell::sync::OnceCell<[u8; 32]>,
    _p: PhantomData<S>,
}

impl<S: Scalar> KeptDigest<S> {
    #[verifier::type_invariant]
    spec fn keeps_scalar(self) -> bool {
        &&& cell_contents(self.cell).len() <= 1
        &&& forall|i: int|
            0 <= i < cell_contents(self.cell).len() ==> le_value(
                (#[trigger] cell_contents(self.cell)[i])@,
            ) < S::modulus()
    }

    /// The integer of the digest that is kept.
    pub closed spec fn kept(&self) -> Option<nat> {
        if cell_contents(self.cell).len() > 0 {
            Some(le_value(cell_contents(self.cell)[0]@))
        } else {
            None
        }
    }

    /// No digest.
    pub(crate) fn empty() -> (r: Self)
        ensures
            r.kept() is None,
    {
        KeptDigest { cell: empty_cell(), _p: PhantomData }
    }

    /// The same digest.
    pub(crate) fn copy(&self) -> (r: Self)
        ensures
            r.kept() == self.kept(),
    {
        proof {
            use_type_invariant(self);
        }
        KeptDigest { cell: clone_cell(&self.cell), _p: PhantomData }
    }

    /// The digest that is kept, or else what `compute` gives, which is then kept.
    pub(crate) fn get_or_compute<X, F: FnOnce() -> Result<S, X>>(self, compute: F) -> (r: (
        Result<S, X>,
        Self,
    ))
        requires
            compute.requires(()),
        ensures
            match self.kept() {
                Some(d) => {
                    &&& r.0 matches Ok(x) && x.value() == d
                    &&& r.1.kept() == Some(d)
                },
                None => match r.0 {
                    Ok(x) => {
                        &&& exists|y: S|
                            #[trigger] compute.ensures((), Ok(y)) && y.value() == x.value()
                        &&& r.1.kept() == Some(x.value())
                    },
                    Err(e) => {
                        &&& compute.ensures((), Err(e))
                        &&& r.1.kept() is None
                    },
                },
            },
    {
        proof {
            use_type_invariant(&self);
        }
        let mut cell = self.cell;
        let r = get_or_try_init(
            &mut cell,
            || -> (b: Result<[u8; 32], X>)
                requires
                    compute.requires(()),
                ensures
                    match b {
                        Ok(bytes) => exists|y: S|
                            #[trigger] compute.ensures((), Ok(y)) && y.value() == le_value(bytes@),
                        Err(e) => compute.ensures((), Err(e)),
                    }
                {
                    match compute() {
                        Ok(y) => Ok(y.to_repr()),
                        Err(e) => Err(e),
                    }
                },
        );
        proof {
            if self.kept() is None && r is Ok {
                let y = choose|y: S|
                    #[trigger] compute.ensures((), Ok(y)) && y.value() == le_value(r->Ok_0@);
                S::lemma_residue(y);
            }
        }
        let after = KeptDigest { cell, _p: PhantomData };
        match r {
            Ok(bytes) => (Ok(S::from_repr(bytes).unwrap()), after),
            Err(e) => (Err(e), after),
        }
    }
}

} // verus!
