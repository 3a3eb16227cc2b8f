//! What the library takes from `once_cell`: a cell that is written at most once.
use vstd::prelude::*;

verus! {

/// A cell of `once_cell`, which is empty or holds one value.
#[verifier::external_type_specification]
#[verifier::external_body]
#[verifier::reject_recursive_types(T)]
pub struct ExOnceCell<T>(once_cell::sync::OnceCell<T>);

/// What a cell holds: nothing, or one value.
pub uninterp spec fn cell_contents(cell: once_cell::sync::OnceCell<[u8; 32]>) -> Seq<[u8; 32]>;

/// `OnceCell::new` makes an empty cell.
#[verifier::external_body]
pub(crate) fn empty_cell() -> (cell: once_cell::sync::OnceCell<[u8; 32]>)
    ensures
        cell_contents(cell) == Seq::<[u8; 32]>::empty(),
{
    once_cell::sync::OnceCell::new()
}

/// The `clone` of a cell holds what the cell holds.
#[verifier::external_body]
pub(crate) fn clone_cell(cell: &once_cell::sync::OnceCell<[u8; 32]>) -> (copy:
    once_cell::sync::OnceCell<[u8; 32]>)
    ensures
        cell_contents(copy) == cell_contents(*cell),
{
    cell.clone()
}

/// `OnceCell::get_or_try_init` returns the value of a cell that holds one and leaves it there.
/// On an empty cell it calls the closure: what that returns comes back, and where it is a value,
/// the cell then holds it. The cell is taken by `&mut`, so that no other thread can fill it
/// meanwhile.
#[verifier::external_body]
pub(crate) fn get_or_try_init<X, F: FnOnce() -> Result<[u8; 32], X>>(
    cell: &mut once_cell::sync::OnceCell<[u8; 32]>,
    f: F,
) -> (r: Result<[u8; 32], X>)
    requires
        f.requires(()),
    ensures
        cell_contents(*old(cell)).len() > 0 ==> {
            &&& r == Ok::<[u8; 32], X>(cell_contents(*old(cell))[0])
            &&& cell_contents(*final(cell)) == cell_contents(*old(cell))
        },
        cell_contents(*old(cell)).len() == 0 ==> {
            &&& f.ensures((), r)
            &&& cell_contents(*final(cell)) == match r {
                Ok(value) => seq![value],
                Err(_) => Seq::<[u8; 32]>::empty(),
            }
        },
{
    cell.get_or_try_init(f).copied()
}

} // verus!
