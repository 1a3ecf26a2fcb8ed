//! The table of cached assets.
use foldhash::fast::RandomState;
use foldhash::HashMap;
use std::hash::Hash;
use vstd::prelude::*;
use vstd::std_specs::hash::obeys_key_model;

verus! {

#[verifier::external_type_specification]
#[verifier::external_body]
pub struct ExFoldState(RandomState);

/// Calls `HashMap::get` on a map hashed by `foldhash`: the value stored under `key`, if any.
/// `RandomState` seeds every hasher it builds alike, so equal keys meet.
#[verifier::external_body]
pub(crate) fn cache_get<K: Hash + Eq>(cache: &HashMap<K, u64>, key: &K) -> (id: Option<u64>)
    requires
        obeys_key_model::<K>(),
    ensures
        id == if cache@.contains_key(*key) {
            Some(cache@[*key])
        } else {
            None
        },
{
    cache.get(key).copied()
}

/// Calls `HashMap::insert` on a map hashed by `foldhash`: stores `id` under `key`, replacing
/// and returning what was there.
#[verifier::external_body]
pub(crate) fn cache_insert<K: Hash + Eq>(cache: &mut HashMap<K, u64>, key: K, id: u64) -> (previous:
    Option<u64>)
    requires
        obeys_key_model::<K>(),
    ensures
        final(cache)@ == old(cache)@.insert(key, id),
        previous == if old(cache)@.contains_key(key) {
            Some(old(cache)@[key])
        } else {
            None
        },
{
    cache.insert(key, id)
}

} // verus!
