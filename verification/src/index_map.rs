//! The calls into the outside map from indices to values, which holds the
//! variable of each local, each under the contract that the rest of the
//! library relies on.  Nothing in this file is proved.

use vstd::prelude::*;

verus! {

/// The outside crate's map from `u32` indices to values.
#[verifier::external_type_specification]
#[verifier::external_body]
#[verifier::reject_recursive_types(T)]
pub struct ExIndexMap<T>(parity_wasm::elements::IndexMap<T>);

/// What a map of ids holds.
pub uninterp spec fn index_map_view(m: parity_wasm::elements::IndexMap<u32>) -> Map<u32, u32>;

/// The map that holds nothing.
pub open spec fn no_entries() -> Map<u32, u32> {
    Map::empty()
}

/// The largest capacity that a map is asked to set aside in advance.
pub const MAX_CAPACITY: usize = 0xffff;

/// `IndexMap::with_capacity`: a map that holds nothing.  The capacity only
/// sets memory aside; it is kept small so that setting it aside cannot fail
/// on a count of bytes that does not fit the machine.
#[verifier::external_body]
pub(crate) fn with_capacity(capacity: usize) -> (m: parity_wasm::elements::IndexMap<u32>)
    requires
        capacity <= MAX_CAPACITY,
    ensures
        index_map_view(m) == no_entries(),
{
    parity_wasm::elements::IndexMap::with_capacity(capacity)
}

/// `IndexMap::insert`: puts `value` at `idx` and returns what was there.
/// The map grows to hold every index up to `idx`.
#[verifier::external_body]
pub(crate) fn insert(m: &mut parity_wasm::elements::IndexMap<u32>, idx: u32, value: u32) -> (r:
    Option<u32>)
    ensures
        index_map_view(*final(m)) == index_map_view(*old(m)).insert(idx, value),
        r == if index_map_view(*old(m)).contains_key(idx) {
            Some(index_map_view(*old(m))[idx])
        } else {
            None
        },
{
    m.insert(idx, value)
}

/// `IndexMap::get`: the value at `idx`, if there is one.
#[verifier::external_body]
pub(crate) fn get(m: &parity_wasm::elements::IndexMap<u32>, idx: u32) -> (r: Option<u32>)
    ensures
        r == if index_map_view(*m).contains_key(idx) {
            Some(index_map_view(*m)[idx])
        } else {
            None
        },
{
    m.get(idx).copied()
}

} // verus!
