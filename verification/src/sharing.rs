//! Shared ownership of a callback.
//!
//! A callback is kept behind an `Rc`, so that a caller can hold on to it
//! while the registry that issued it is changed.

use std::rc::Rc;
use vstd::prelude::*;

verus! {

/// `Rc::clone`: another pointer to the same value. The value itself is not
/// copied, so what the result points to is what `value` points to.
#[verifier::external_body]
pub(crate) fn share<T>(value: &Rc<T>) -> (shared: Rc<T>)
    ensures
        *shared == **value,
{
    Rc::clone(value)
}

} // verus!
