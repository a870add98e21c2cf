//! The connections that wait to be accepted, kept in a `DashMap`.
//!
//! Everything that is believed of `dashmap` stands in this file.
use dashmap::DashMap;
use vstd::prelude::*;

verus! {

/// `dashmap::DashMap`, a sharded hash map.
#[verifier::external_type_specification]
#[verifier::external_body]
#[verifier::reject_recursive_types(K)]
#[verifier::reject_recursive_types(V)]
#[verifier::reject_recursive_types(S)]
pub struct ExDashMap<K, V, S>(DashMap<K, V, S>);

/// What a map holds, while nobody else has access to it.
pub uninterp spec fn entries(map: DashMap<u128, u64>) -> Map<u128, u64>;

/// `DashMap::new`: an empty map.
#[verifier::external_body]
pub(crate) fn new_map() -> (map: DashMap<u128, u64>)
    ensures
        (entries(map) == Map::<u128, u64>::empty()),
{
    DashMap::new()
}

/// `DashMap::insert`: puts the value under the key, and returns the value that it displaces.
/// The map is borrowed exclusively, so no other access falls in between and no lock is held.
#[verifier::external_body]
pub(crate) fn insert(map: &mut DashMap<u128, u64>, key: u128, value: u64) -> (displaced: Option<
    u64,
>)
    ensures
        entries(*final(map)) == entries(*old(map)).insert(key, value),
        displaced == if entries(*old(map)).contains_key(key) {
            Some(entries(*old(map))[key])
        } else {
            None
        },
{
    map.insert(key, value)
}

/// `DashMap::remove`: takes the key out, and returns it with the value that it had.
/// The map is borrowed exclusively, so no other access falls in between and no lock is held.
#[verifier::external_body]
pub(crate) fn remove(map: &mut DashMap<u128, u64>, key: u128) -> (removed: Option<(u128, u64)>)
    ensures
        entries(*final(map)) == entries(*old(map)).remove(key),
        removed == if entries(*old(map)).contains_key(key) {
            Some((key, entries(*old(map))[key]))
        } else {
            None
        },
{
    map.remove(&key)
}

} // verus!
