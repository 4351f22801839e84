//! The table of cached textures, keyed by name: a `hashbrown::HashMap`.

use vstd::prelude::*;
use hashbrown::HashMap;
use crate::psp_assets::AssetEntry;

verus! {

/// The cache's table: one entry for each name.
#[verifier::external_body]
#[derive(Debug)]
pub struct TextureMap {
    inner: HashMap<String, AssetEntry>,
}

/// The entries that a table holds, by name.
pub uninterp spec fn map_entries(map: TextureMap) -> Map<Seq<char>, AssetEntry>;

impl View for TextureMap {
    type V = Map<Seq<char>, AssetEntry>;

    open spec fn view(&self) -> Map<Seq<char>, AssetEntry> {
        map_entries(*self)
    }
}

/// The table without entries.
pub open spec fn no_entries() -> Map<Seq<char>, AssetEntry> {
    Map::empty()
}

/// Calls `HashMap::new`. Trusted: the new table is empty.
#[verifier::external_body]
pub(crate) fn map_new() -> (table: TextureMap)
    ensures
        map_entries(table) == no_entries(),
{
    TextureMap { inner: HashMap::new() }
}

/// Calls `HashMap::len`. Trusted: the number of entries in the table.
#[verifier::external_body]
pub(crate) fn map_len(map: &TextureMap) -> (count: usize)
    ensures
        count == map_entries(*map).len(),
{
    map.inner.len()
}

/// Calls `HashMap::get`. Trusted: the entry under `key`, if there is one.
#[verifier::external_body]
pub(crate) fn map_get<'a>(map: &'a TextureMap, key: &str) -> (entry: Option<&'a AssetEntry>)
    ensures
        match entry {
            Some(e) => map_entries(*map).contains_key(key@) && *e == map_entries(*map)[key@],
            None => !map_entries(*map).contains_key(key@),
        },
{
    map.inner.get(key)
}

/// Calls `HashMap::get_mut`. Trusted: the entry under `key`, if there is
/// one; what is written through the reference is the new entry under `key`,
/// and no other entry changes.
#[verifier::external_body]
pub(crate) fn map_get_mut<'a>(map: &'a mut TextureMap, key: &str) -> (entry: Option<
    &'a mut AssetEntry,
>)
    ensures
        match entry {
            Some(e) => {
                &&& map_entries(*old(map)).contains_key(key@)
                &&& *e == map_entries(*old(map))[key@]
                &&& map_entries(*final(map)) == map_entries(*old(map)).insert(key@, *final(e))
            },
            None => {
                &&& !map_entries(*old(map)).contains_key(key@)
                &&& map_entries(*final(map)) == map_entries(*old(map))
            },
        },
{
    map.inner.get_mut(key)
}

/// Calls `HashMap::insert`. Trusted: `entry` is the new entry under `key`,
/// no other entry changes, and the entry that `key` had comes back.
#[verifier::external_body]
pub(crate) fn map_insert(map: &mut TextureMap, key: String, entry: AssetEntry) -> (previous:
    Option<AssetEntry>)
    ensures
        map_entries(*final(map)) == map_entries(*old(map)).insert(key@, entry),
        match previous {
            Some(e) => map_entries(*old(map)).contains_key(key@) && e == map_entries(
                *old(map),
            )[key@],
            None => !map_entries(*old(map)).contains_key(key@),
        },
{
    map.inner.insert(key, entry)
}

/// Calls `HashMap::retain` with `AssetEntry::is_referenced` as the test.
/// Trusted: the entries that pass the test stay as they are, and the others
/// leave the table.
#[verifier::external_body]
pub(crate) fn map_retain_referenced(map: &mut TextureMap)
    ensures
        map_entries(*final(map)) == map_entries(*old(map)).restrict(
            Set::new(|name: Seq<char>| map_entries(*old(map))[name].referenced()),
        ),
{
    map.inner.retain(|_, entry| entry.is_referenced());
}

} // verus!
