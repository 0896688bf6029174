//! Trusted access to the `rustc_hash` collections that the library keeps.
use rustc_hash::{FxBuildHasher, FxHashMap, FxHashSet};
use vstd::prelude::*;

verus! {

/// The hasher builder of `rustc_hash`, declared so that `FxHashSet` can
/// stand in fields. Its hashers are deterministic: the same writes always
/// give the same hash.
#[verifier::external_type_specification]
#[verifier::external_body]
pub struct ExFxBuildHasher(FxBuildHasher);

/// Calls `HashSet::with_hasher(FxBuildHasher)`; claims that the set it
/// returns is empty. It allocates nothing, so it cannot fail.
#[verifier::external_body]
pub(crate) fn fx_set_new() -> (s: FxHashSet<usize>)
    ensures
        s@ == Set::<usize>::empty(),
{
    FxHashSet::with_hasher(FxBuildHasher)
}

/// Calls `HashSet::try_reserve`; claims that the contents do not change.
/// Success depends on the allocator and is not stated.
#[verifier::external_body]
pub(crate) fn fx_set_try_reserve(s: &mut FxHashSet<usize>, additional: usize) -> (ok: bool)
    ensures
        final(s)@ == old(s)@,
{
    s.try_reserve(additional).is_ok()
}

/// Calls `HashSet::len`; claims it is the number of keys held.
#[verifier::external_body]
pub(crate) fn fx_set_len(s: &FxHashSet<usize>) -> (n: usize)
    ensures
        n == s@.len(),
{
    s.len()
}

/// Calls `HashSet::is_empty`; claims it tells whether no key is held.
#[verifier::external_body]
pub(crate) fn fx_set_is_empty(s: &FxHashSet<usize>) -> (b: bool)
    ensures
        b == (s@ == Set::<usize>::empty()),
{
    s.is_empty()
}

/// Calls `HashSet::contains`; claims it tells whether `key` is held.
#[verifier::external_body]
pub(crate) fn fx_set_contains(s: &FxHashSet<usize>, key: usize) -> (b: bool)
    ensures
        b == s@.contains(key),
{
    s.contains(&key)
}

/// Calls `HashSet::insert`; claims that `key` is held afterwards and that the
/// result tells whether it was absent before.
#[verifier::external_body]
pub(crate) fn fx_set_insert(s: &mut FxHashSet<usize>, key: usize) -> (b: bool)
    ensures
        final(s)@ == old(s)@.insert(key),
        b == !old(s)@.contains(key),
{
    s.insert(key)
}

/// Calls `HashSet::remove`; claims that `key` is no longer held and that the
/// result tells whether it was held before.
#[verifier::external_body]
pub(crate) fn fx_set_remove(s: &mut FxHashSet<usize>, key: usize) -> (b: bool)
    ensures
        final(s)@ == old(s)@.remove(key),
        b == old(s)@.contains(key),
{
    s.remove(&key)
}

/// A `rustc_hash` map keyed by descriptors.
pub type FxIntMap<V> = FxHashMap<i32, V>;

/// Calls `HashMap::with_hasher(FxBuildHasher)`; claims that the map it
/// returns is empty. It allocates nothing, so it cannot fail.
#[verifier::external_body]
pub(crate) fn fx_map_new<V>() -> (m: FxIntMap<V>)
    ensures
        m@.is_empty(),
{
    FxIntMap::with_hasher(FxBuildHasher)
}

/// Calls `HashMap::try_reserve`; claims that the contents do not change.
/// Success depends on the allocator and is not stated.
#[verifier::external_body]
pub(crate) fn fx_map_try_reserve<V>(m: &mut FxIntMap<V>, additional: usize) -> (ok: bool)
    ensures
        final(m)@ == old(m)@,
{
    m.try_reserve(additional).is_ok()
}

/// Calls `HashMap::get` and copies the value; claims it is the value held
/// for `key`, if any.
#[verifier::external_body]
pub(crate) fn fx_map_get<V: Copy>(m: &FxIntMap<V>, key: i32) -> (r: Option<V>)
    ensures
        r == if m@.contains_key(key) {
            Some(m@[key])
        } else {
            None
        },
{
    m.get(&key).copied()
}

/// Calls `HashMap::contains_key`; claims it tells whether `key` is held.
#[verifier::external_body]
pub(crate) fn fx_map_contains_key<V>(m: &FxIntMap<V>, key: i32) -> (b: bool)
    ensures
        b == m@.contains_key(key),
{
    m.contains_key(&key)
}

/// Calls `HashMap::insert`; claims that `key` maps to `value` afterwards and
/// that the result is the value it held before, if any.
#[verifier::external_body]
pub(crate) fn fx_map_insert<V>(m: &mut FxIntMap<V>, key: i32, value: V) -> (r: Option<V>)
    ensures
        final(m)@ == old(m)@.insert(key, value),
        r == if old(m)@.contains_key(key) {
            Some(old(m)@[key])
        } else {
            None
        },
{
    m.insert(key, value)
}

/// Calls `HashMap::remove`; claims that `key` is no longer held and that the
/// result is the value it held before, if any.
#[verifier::external_body]
pub(crate) fn fx_map_remove<V>(m: &mut FxIntMap<V>, key: i32) -> (r: Option<V>)
    ensures
        final(m)@ == old(m)@.remove(key),
        r == if old(m)@.contains_key(key) {
            Some(old(m)@[key])
        } else {
            None
        },
{
    m.remove(&key)
}

} // verus!
