//! The hash map that holds a snapshot's entries: `ahash::AHashMap`, keyed by
//! the characters of a path's normal form. Verus sees the map as an opaque
//! value and knows of it only what the contracts in this file say.

use vstd::prelude::*;
use ahash::AHashMap;
use crate::store::FileCache;

verus! {

/// `ahash::AHashMap`, declared so that it can stand in fields and
/// signatures. Nothing is claimed of what is inside a value.
#[verifier::external_type_specification]
#[verifier::external_body]
#[verifier::reject_recursive_types(K)]
#[verifier::reject_recursive_types(V)]
#[verifier::reject_recursive_types(S)]
pub struct ExAHashMap<K, V, S>(AHashMap<K, V, S>);

/// `ahash::RandomState`, the hasher that an `AHashMap` has unless it is
/// given another. Nothing is claimed of it.
#[verifier::external_type_specification]
#[verifier::external_body]
pub struct ExRandomState(ahash::RandomState);

/// What a table holds: each key with the entry stored under it. Keys are
/// vectors of characters, which hash and compare by their content.
pub uninterp spec fn table_entries(table: AHashMap<Vec<char>, FileCache>) -> Map<Seq<char>, FileCache>;

/// `AHashMap::new`: a table that holds nothing.
#[verifier::external_body]
pub(crate) fn table_new() -> (table: AHashMap<Vec<char>, FileCache>)
    ensures
        table_entries(table) == (Map::<Seq<char>, FileCache>::empty()),
{
    AHashMap::new()
}

/// `AHashMap::insert`: afterwards `key` leads to `entry`, whatever it led to
/// before, and every other key leads where it did.
#[verifier::external_body]
pub(crate) fn table_insert(table: &mut AHashMap<Vec<char>, FileCache>, key: Vec<char>, entry: FileCache)
    ensures
        table_entries(*final(table)) == table_entries(*old(table)).insert(key@, entry),
{
    table.insert(key, entry);
}

/// `AHashMap::get`: the entry stored under `key`, if there is one.
#[verifier::external_body]
pub(crate) fn table_get<'a>(table: &'a AHashMap<Vec<char>, FileCache>, key: &Vec<char>) -> (found: Option<&'a FileCache>)
    ensures
        found matches Some(entry) ==> table_entries(*table).contains_key(key@) && *entry == table_entries(*table)[key@],
        found is None ==> !table_entries(*table).contains_key(key@),
{
    table.get(key)
}

/// `HashMap::len`, reached through `AHashMap`'s `Deref`: the number of keys.
#[verifier::external_body]
pub(crate) fn table_len(table: &AHashMap<Vec<char>, FileCache>) -> (count: usize)
    ensures
        count == table_entries(*table).len(),
{
    table.len()
}

} // verus!
