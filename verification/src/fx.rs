//! Sets of handles, and sets of indices kept under a handle, in the hash
//! set and the hash map the surrounding compiler uses. Their contents are
//! spoken of through their views, a `Set<usize>` and a `Map` from `usize`
//! to such sets.

use vstd::prelude::*;
use rustc_data_structures::fx::FxHashMap;
use rustc_data_structures::stable_set::FxHashSet;

verus! {

/// The hasher of `FxHashSet`. Trusted: declared so that the set's type can
/// be named; nothing is claimed of it.
#[verifier::external_type_specification]
#[verifier::external_body]
pub struct ExFxHasher(rustc_data_structures::fx::FxHasher);

/// The standard library's builder of default-constructed hashers, the
/// second type argument of `FxHashSet`. Trusted: declared so that the set's
/// type can be named; nothing is claimed of it.
#[verifier::reject_recursive_types(H)]
#[verifier::external_type_specification]
#[verifier::external_body]
pub struct ExBuildHasherDefault<H>(std::hash::BuildHasherDefault<H>);

/// An empty set.
///
/// Trusted: `FxHashSet::default()` is the standard `HashSet::default`,
/// documented to create an empty set.
#[verifier::external_body]
pub(crate) fn handles_new() -> (s: FxHashSet<usize>)
    ensures
        s@ == Set::<usize>::empty(),
{
    FxHashSet::default()
}

/// Adds `handle` to the set.
///
/// Trusted: `HashSet::insert` is documented to add the value to the set and
/// to leave the set unchanged where it already holds the value.
#[verifier::external_body]
pub(crate) fn handles_insert(s: &mut FxHashSet<usize>, handle: usize)
    ensures
        final(s)@ == old(s)@.insert(handle),
{
    s.insert(handle);
}

/// Whether the set holds `handle`.
///
/// Trusted: `HashSet::contains` is documented to return `true` exactly when
/// the set holds a value equal to the argument.
#[verifier::external_body]
pub(crate) fn handles_contains(s: &FxHashSet<usize>, handle: usize) -> (r: bool)
    ensures
        r == s@.contains(handle),
{
    s.contains(&handle)
}

/// An empty map.
///
/// Trusted: `FxHashMap::default()` is the standard `HashMap::default`,
/// documented to create an empty map.
#[verifier::external_body]
pub(crate) fn sets_new() -> (m: FxHashMap<usize, FxHashSet<usize>>)
    ensures
        m@.dom() == Set::<usize>::empty(),
{
    FxHashMap::default()
}

/// Takes out of the map what it holds under `key`.
///
/// Trusted: `HashMap::remove` is documented to remove the key from the
/// map and to return the value at the key if the key was in the map.
#[verifier::external_body]
pub(crate) fn sets_remove(m: &mut FxHashMap<usize, FxHashSet<usize>>, key: usize) -> (r: Option<
    FxHashSet<usize>,
>)
    ensures
        final(m)@ == old(m)@.remove(key),
        r is Some <==> old(m)@.contains_key(key),
        r is Some ==> r.unwrap() == old(m)@[key],
{
    m.remove(&key)
}

/// Puts `set` into the map under `key`.
///
/// Trusted: `HashMap::insert` is documented to insert the pair into the
/// map and to replace the value of a key that the map holds already.
#[verifier::external_body]
pub(crate) fn sets_insert(m: &mut FxHashMap<usize, FxHashSet<usize>>, key: usize, set: FxHashSet<usize>)
    ensures
        final(m)@ == old(m)@.insert(key, set),
{
    m.insert(key, set);
}

/// What the map holds under `key`.
///
/// Trusted: `HashMap::get` is documented to return a reference to the
/// value that corresponds to the key, if there is one.
#[verifier::external_body]
pub(crate) fn sets_get(m: &FxHashMap<usize, FxHashSet<usize>>, key: usize) -> (r: Option<
    &FxHashSet<usize>,
>)
    ensures
        r is Some <==> m@.contains_key(key),
        r is Some ==> *r.unwrap() == m@[key],
{
    m.get(&key)
}

} // verus!
