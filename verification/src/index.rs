//! The concurrent hash table that finds a key's slot.
//!
//! The table is a `dashmap::DashMap` from keys to slot positions. Nothing in
//! this file is proved: each function states what the table does, and the
//! verified containers are built on these statements.

use dashmap::DashMap;
use vstd::prelude::*;

verus! {

/// `dashmap::DashMap`, of which nothing is known but what the functions
/// below state.
#[verifier::external_type_specification]
#[verifier::external_body]
#[verifier::reject_recursive_types(K)]
#[verifier::reject_recursive_types(V)]
#[verifier::reject_recursive_types(S)]
pub struct ExDashMap<K, V, S>(DashMap<K, V, S>);

/// The bindings that a table holds: each key, taken as its sequence of
/// characters, with the position bound to it.
pub uninterp spec fn positions(table: DashMap<String, usize>) -> Map<Seq<char>, usize>;

/// `DashMap::new`: the new table binds no key.
#[verifier::external_body]
pub(crate) fn table_new() -> (table: DashMap<String, usize>)
    ensures
        positions(table) == (Map::<Seq<char>, usize>::empty()),
{
    DashMap::new()
}

/// `DashMap::get`: the position bound to `key`, or `None` where the table does
/// not bind it. The table is left as it was.
#[verifier::external_body]
pub(crate) fn table_get(table: &DashMap<String, usize>, key: &str) -> (found: Option<usize>)
    ensures
        found == (if positions(*table).contains_key(key@) {
            Some(positions(*table)[key@])
        } else {
            None
        }),
{
    table.get(key).map(|bound| *bound.value())
}

/// `DashMap::contains_key`: whether the table binds `key`.
#[verifier::external_body]
pub(crate) fn table_contains(table: &DashMap<String, usize>, key: &str) -> (bound: bool)
    ensures
        bound == positions(*table).contains_key(key@),
{
    table.contains_key(key)
}

/// `DashMap::insert`: afterwards `key` is bound to `position` and every other
/// key is bound as before. The result is the position that `key` was bound to
/// before the call, if it was bound.
#[verifier::external_body]
pub(crate) fn table_insert(table: &mut DashMap<String, usize>, key: String, position: usize) -> (previous: Option<usize>)
    ensures
        positions(*final(table)) == positions(*old(table)).insert(key@, position),
        previous == (if positions(*old(table)).contains_key(key@) {
            Some(positions(*old(table))[key@])
        } else {
            None
        }),
{
    table.insert(key, position)
}

/// `DashMap::remove`: afterwards `key` is unbound and every other key is
/// bound as before. The result is the position that `key` was bound to before
/// the call, if it was bound.
#[verifier::external_body]
pub(crate) fn table_remove(table: &mut DashMap<String, usize>, key: &str) -> (previous: Option<usize>)
    ensures
        positions(*final(table)) == positions(*old(table)).remove(key@),
        previous == (if positions(*old(table)).contains_key(key@) {
            Some(positions(*old(table))[key@])
        } else {
            None
        }),
{
    table.remove(key).map(|(_, position)| position)
}

/// `DashMap::clear`: afterwards the table binds no key.
#[verifier::external_body]
pub(crate) fn table_clear(table: &mut DashMap<String, usize>)
    ensures
        positions(*final(table)) == (Map::<Seq<char>, usize>::empty()),
{
    table.clear()
}

} // verus!
