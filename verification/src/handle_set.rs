//! The ordered set of live listener handles.
//!
//! The emitter keeps its handles in an `indexmap::IndexSet`, which remembers
//! the order of insertion and finds the position of a handle by hashing.
//! Verus cannot look inside that type, so this module states what the rest of
//! the crate relies on: the set is modelled as the sequence of its handles in
//! iteration order, and each operation used elsewhere is given a contract over
//! that sequence. These contracts are assumed, not proved.

use indexmap::IndexSet;
use std::hash::RandomState;
use vstd::prelude::*;

verus! {

/// `indexmap::IndexSet`, made known to Verus as an opaque type. Nothing is
/// claimed of it here; what a set holds is named by `handle_order`.
#[verifier::external_type_specification]
#[verifier::external_body]
#[verifier::reject_recursive_types(T)]
#[verifier::reject_recursive_types(S)]
pub struct ExIndexSet<T, S>(IndexSet<T, S>);

/// The handles held by `set`, in the order in which the set iterates them.
pub uninterp spec fn handle_order(set: IndexSet<u32, RandomState>) -> Seq<u32>;

/// `IndexSet::new`: a set that holds nothing.
#[verifier::external_body]
pub(crate) fn new_handle_set() -> (set: IndexSet<u32, RandomState>)
    ensures
        handle_order(set) == Seq::<u32>::empty(),
{
    IndexSet::new()
}

/// `IndexSet::len`: the number of handles in the set.
#[verifier::external_body]
pub(crate) fn handle_count(set: &IndexSet<u32, RandomState>) -> (count: usize)
    ensures
        count == handle_order(*set).len(),
{
    set.len()
}

/// `IndexSet::insert`: a handle that the set does not hold yet is placed last
/// and `true` is returned; one that it already holds leaves the set and its
/// order as they were and `false` is returned.
#[verifier::external_body]
pub(crate) fn insert_handle(set: &mut IndexSet<u32, RandomState>, handle: u32) -> (inserted: bool)
    ensures
        inserted == !handle_order(*old(set)).contains(handle),
        inserted ==> handle_order(*final(set)) == handle_order(*old(set)).push(handle),
        !inserted ==> handle_order(*final(set)) == handle_order(*old(set)),
{
    set.insert(handle)
}

/// `IndexSet::shift_remove_full`: a handle that the set holds is taken out,
/// the handles behind it move up by one place keeping their order, and the
/// position it had is returned with it; for one that the set does not hold
/// nothing changes and `None` is returned.
#[verifier::external_body]
pub(crate) fn remove_handle(set: &mut IndexSet<u32, RandomState>, handle: u32) -> (removed: Option<
    (usize, u32),
>)
    ensures
        removed is Some <==> handle_order(*old(set)).contains(handle),
        removed matches Some((index, value)) ==> {
            &&& index < handle_order(*old(set)).len()
            &&& handle_order(*old(set))[index as int] == handle
            &&& value == handle
            &&& handle_order(*final(set)) == handle_order(*old(set)).remove(index as int)
        },
        removed is None ==> handle_order(*final(set)) == handle_order(*old(set)),
{
    set.shift_remove_full(&handle)
}

} // verus!
