//! Per-class counters kept in bevy's fixed-hasher `HashMap`, behind trusted items.
use bevy::platform::collections::HashMap;
use bevy::platform::hash::FixedHasher;
use vstd::prelude::*;

verus! {

/// `bevy_platform::collections::HashMap`, held opaque; what it holds is named by `tally_of`.
#[verifier::external_type_specification]
#[verifier::external_body]
#[verifier::reject_recursive_types(K)]
#[verifier::reject_recursive_types(V)]
#[verifier::reject_recursive_types(S)]
pub struct ExHashMap<K, V, S>(HashMap<K, V, S>);

/// `bevy_platform::hash::FixedHasher`, the map's default hasher, held opaque.
#[verifier::external_type_specification]
#[verifier::external_body]
pub struct ExFixedHasher(FixedHasher);

/// What a tally map holds, key by key.
pub uninterp spec fn tally_of(m: HashMap<u8, u32>) -> Map<u8, u32>;

/// Relies on `bevy_platform::collections::HashMap::new`: the new map is empty.
#[verifier::external_body]
pub(crate) fn empty_tally() -> (r: HashMap<u8, u32>)
    ensures
        tally_of(r) =~= Map::empty(),
{
    HashMap::new()
}

/// Relies on `bevy_platform::collections::HashMap::get`: the value stored under `key`, if any.
#[verifier::external_body]
pub(crate) fn tally_get(m: &HashMap<u8, u32>, key: u8) -> (r: Option<u32>)
    ensures
        r == (if tally_of(*m).contains_key(key) {
            Some(tally_of(*m)[key])
        } else {
            None::<u32>
        }),
{
    m.get(&key).copied()
}

/// Relies on `bevy_platform::collections::HashMap::insert`: `key` now maps to `value`,
/// every other key is untouched.
#[verifier::external_body]
pub(crate) fn tally_insert(m: &mut HashMap<u8, u32>, key: u8, value: u32)
    ensures
        tally_of(*final(m)) == tally_of(*old(m)).insert(key, value),
{
    m.insert(key, value);
}

} // verus!
