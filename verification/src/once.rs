//! A verdict that is given at most once.
use tokio::sync::{SetOnce, SetOnceError};
use vstd::prelude::*;

verus! {

#[verifier::external_type_specification]
#[verifier::external_body]
#[verifier::reject_recursive_types(T)]
pub struct ExSetOnce<T>(SetOnce<T>);

#[verifier::external_type_specification]
#[verifier::external_body]
#[verifier::reject_recursive_types(T)]
pub struct ExSetOnceError<T>(SetOnceError<T>);

/// What the cell holds: nothing until it has been set, and one value from then on.
pub uninterp spec fn set_once_contents(cell: SetOnce<bool>) -> Option<bool>;

/// Calls `SetOnce::new`: an empty cell.
#[verifier::external_body]
pub(crate) fn set_once_new() -> (cell: SetOnce<bool>)
    ensures
        set_once_contents(cell) == None::<bool>,
{
    SetOnce::new()
}

/// Calls `SetOnce::get`: the value, if the cell has been set.
#[verifier::external_body]
pub(crate) fn set_once_get(cell: &SetOnce<bool>) -> (value: Option<&bool>)
    ensures
        match value {
            Some(b) => set_once_contents(*cell) == Some(*b),
            None => set_once_contents(*cell) is None,
        },
{
    cell.get()
}

/// Calls `SetOnce::set`: fills an empty cell, and fails on a full one, which keeps its value.
#[verifier::external_body]
pub(crate) fn set_once_set(cell: &mut SetOnce<bool>, value: bool) -> (res: Result<
    (),
    SetOnceError<bool>,
>)
    ensures
        res is Ok <==> set_once_contents(*old(cell)) is None,
        set_once_contents(*final(cell)) == if set_once_contents(*old(cell)) is None {
            Some(value)
        } else {
            set_once_contents(*old(cell))
        },
{
    cell.set(value)
}

/// Calls `SetOnce::into_inner`: the value, if the cell has been set.
#[verifier::external_body]
pub(crate) fn set_once_into_inner(cell: SetOnce<bool>) -> (value: Option<bool>)
    ensures
        value == set_once_contents(cell),
{
    cell.into_inner()
}

} // verus!
