use vstd::prelude::*;

verus! {

/// The entries of a map state. A map whose table has never been created
/// (`None`) holds no entry.
pub open spec fn stored<V>(m: Option<Map<u64, V>>) -> Map<u64, V> {
    match m {
        Some(t) => t,
        None => Map::empty(),
    }
}

/// The state after `get_or_init(key, ..)` whose initializer would yield `v`:
/// the table exists, and `key` gets `v` unless it already had a value.
pub open spec fn after_get_or_init<V>(m: Option<Map<u64, V>>, key: u64, v: V) -> Option<Map<u64, V>> {
    if stored(m).contains_key(key) {
        Some(stored(m))
    } else {
        Some(stored(m).insert(key, v))
    }
}

/// Whether `init(key, ..)` stores a value: only on a created table that
/// has no value for `key` yet.
pub open spec fn init_stores<V>(m: Option<Map<u64, V>>, key: u64) -> bool {
    m is Some && !m.unwrap().contains_key(key)
}

/// The state after `init(key, ..)` whose initializer would yield `v`.
pub open spec fn after_init<V>(m: Option<Map<u64, V>>, key: u64, v: V) -> Option<Map<u64, V>> {
    if init_stores(m, key) {
        Some(m.unwrap().insert(key, v))
    } else {
        m
    }
}

} // verus!
