//! Small helpers of the browser bindings.
use vstd::prelude::*;

verus! {

/// Does nothing with the value it is lent; it leaves it as it was.
pub fn noop<T>(_value: &mut T)
    ensures
        *final(_value) == *old(_value),
{
}

/// Stands for an error of the browser bindings that is never produced.
#[derive(Debug)]
pub struct TODO;

} // verus!
