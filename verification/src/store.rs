//! The boundary to the `lru` crate: the recency-ordered store that holds the
//! cached results, and what this library takes for granted about it.
//!
//! Nothing here is proved. Each contract says of one method of
//! `lru::LruCache` what its source shows, over the entries of the store in
//! order of recency.

use lru::LruCache;
use std::num::NonZeroUsize;
use vstd::prelude::*;

verus! {

/// The hasher that a store is made with where none is named: the third
/// parameter of `LruCache<String, String>`.
#[verifier::external_type_specification]
#[verifier::external_body]
pub struct ExDefaultHasher(lru::DefaultHasher);

/// The store itself. What it holds is opaque, and spoken of through
/// `store_entries` and `store_limit`.
#[verifier::external_type_specification]
#[verifier::external_body]
#[verifier::reject_recursive_types(K)]
#[verifier::reject_recursive_types(V)]
#[verifier::reject_recursive_types(S)]
pub struct ExLruCache<K, V, S>(LruCache<K, V, S>);

/// The entries that a store holds, as pairs of key and value, the most
/// recently used first.
pub uninterp spec fn store_entries(store: LruCache<String, String>) -> Seq<(Seq<char>, Seq<char>)>;

/// The number of entries that a store was made to hold at most.
pub uninterp spec fn store_limit(store: LruCache<String, String>) -> nat;

/// No entry has this key.
pub open spec fn lacks(entries: Seq<(Seq<char>, Seq<char>)>, key: Seq<char>) -> bool {
    forall|i: int| 0 <= i < entries.len() ==> (#[trigger] entries[i]).0 != key
}

/// `after` is `before` with one entry, `was`, taken from its place, and
/// `now` put in front.
pub open spec fn moved_to_front(
    before: Seq<(Seq<char>, Seq<char>)>,
    was: (Seq<char>, Seq<char>),
    now: (Seq<char>, Seq<char>),
    after: Seq<(Seq<char>, Seq<char>)>,
) -> bool {
    exists|i: int|
        0 <= i < before.len() && #[trigger] before[i] == was && after == seq![now] + before.remove(
            i,
        )
}

/// `LruCache::new`: the new store is empty and holds at most `limit`
/// entries. Its table is allocated for `limit` entries at once, and a table
/// whose size in bytes does not fit the address space makes the call panic.
/// Up to the bound a table takes less than 2^37 bytes, which fits where
/// addresses have 64 bits.
#[verifier::external_body]
pub(crate) fn store_new(limit: usize) -> (store: LruCache<String, String>)
    requires
        0 < limit <= 0x7fff_ffff,
    ensures
        store_entries(store) == Seq::<(Seq<char>, Seq<char>)>::empty(),
        store_limit(store) == limit,
{
    LruCache::new(NonZeroUsize::new(limit).unwrap())
}

/// `LruCache::len`: the number of entries held.
#[verifier::external_body]
pub(crate) fn store_len(store: &LruCache<String, String>) -> (n: usize)
    ensures
        n == store_entries(*store).len(),
{
    store.len()
}

/// `LruCache::cap`: the limit the store was made with.
#[verifier::external_body]
pub(crate) fn store_cap(store: &LruCache<String, String>) -> (limit: usize)
    ensures
        limit == store_limit(*store),
{
    store.cap().get()
}

/// `LruCache::contains`: whether an entry has this key. The order of the
/// entries is not touched.
#[verifier::external_body]
pub(crate) fn store_contains(store: &LruCache<String, String>, key: &str) -> (found: bool)
    ensures
        found == !lacks(store_entries(*store), key@),
{
    store.contains(key)
}

/// `LruCache::get`: where an entry has this key, a copy of its value is
/// returned and the entry moves to the front of the order; where none has,
/// nothing changes. The limit stays either way.
#[verifier::external_body]
pub(crate) fn store_get(store: &mut LruCache<String, String>, key: &str) -> (value: Option<String>)
    ensures
        store_limit(*final(store)) == store_limit(*old(store)),
        match value {
            Some(v) => moved_to_front(
                store_entries(*old(store)),
                (key@, v@),
                (key@, v@),
                store_entries(*final(store)),
            ),
            None => lacks(store_entries(*old(store)), key@) && store_entries(*final(store))
                == store_entries(*old(store)),
        },
{
    store.get(key).cloned()
}

/// `LruCache::put`: the pair stands in front afterwards. Where an entry had
/// this key already, it is the one replaced, and its value is returned.
/// Where none had, nothing is returned, and the last entry leaves if the
/// store held as many entries as its limit. The limit stays.
#[verifier::external_body]
pub(crate) fn store_put(store: &mut LruCache<String, String>, key: String, value: String) -> (previous:
    Option<String>)
    ensures
        store_limit(*final(store)) == store_limit(*old(store)),
        match previous {
            Some(p) => moved_to_front(
                store_entries(*old(store)),
                (key@, p@),
                (key@, value@),
                store_entries(*final(store)),
            ),
            None => lacks(store_entries(*old(store)), key@) && store_entries(*final(store))
                == seq![(key@, value@)] + if store_entries(*old(store)).len() == store_limit(
                *old(store),
            ) {
                store_entries(*old(store)).drop_last()
            } else {
                store_entries(*old(store))
            },
        },
{
    store.put(key, value)
}

/// `LruCache::clear`: every entry leaves, the limit stays.
#[verifier::external_body]
pub(crate) fn store_clear(store: &mut LruCache<String, String>)
    ensures
        store_entries(*final(store)) == Seq::<(Seq<char>, Seq<char>)>::empty(),
        store_limit(*final(store)) == store_limit(*old(store)),
{
    store.clear()
}

} // verus!
