//! The cache engine: lookup, execution on a miss, clearing and resizing.

use crate::executor::{render_outcome, rendered};
use crate::model::{lemma_insert, lemma_position, lemma_touch, CacheModel};
use crate::size::{parse_size, parsed_size, validated, SizeError};
use crate::store::{
    store_cap, store_clear, store_contains, store_entries, store_get, store_len, store_limit,
    store_new, store_put,
};
use lru::LruCache;
use vstd::prelude::*;

verus! {

/// The capacity of a cache that was never resized.
pub const DEFAULT_CAPACITY: usize = 100;

/// A least-recently-used cache from query text to result text.
pub struct QueryCache {
    store: LruCache<String, String>,
}

impl View for QueryCache {
    type V = CacheModel;

    closed spec fn view(&self) -> CacheModel {
        CacheModel { entries: store_entries(self.store), capacity: store_limit(self.store) }
    }
}

impl QueryCache {
    /// The cache is in a state that its operations keep it in.
    pub open spec fn wf(&self) -> bool {
        self@.wf()
    }

    /// An empty cache of the default capacity.
    pub fn new() -> (cache: QueryCache)
        ensures
            cache.wf(),
            cache@ == CacheModel::empty(DEFAULT_CAPACITY as nat),
    {
        QueryCache { store: store_new(DEFAULT_CAPACITY) }
    }

    /// The greatest number of entries the cache may hold.
    pub fn capacity(&self) -> (capacity: usize)
        requires
            self.wf(),
        ensures
            capacity == self@.capacity,
            capacity >= 1,
    {
        store_cap(&self.store)
    }

    /// The number of entries held, which never exceeds the capacity.
    pub fn len(&self) -> (len: usize)
        requires
            self.wf(),
        ensures
            len == self@.entries.len(),
            len <= self@.capacity,
    {
        store_len(&self.store)
    }

    /// Whether a result is cached for `query`. Asking does not count as an
    /// access: the order of recency stays as it is.
    pub fn is_cached(&self, query: &str) -> (cached: bool)
        ensures
            cached == self@.contains(query@),
    {
        let found = store_contains(&self.store, query);
        proof {
            if found {
                let i = choose|i: int|
                    0 <= i < self@.entries.len() && (#[trigger] self@.entries[i]).0 == query@;
                assert(self@.holds_at(query@, i));
            } else {
                assert forall|i: int| !self@.holds_at(query@, i) by {}
            }
        }
        found
    }

    /// Returns the result cached for `query`, if there is one, and marks it
    /// as the most recently used.
    pub fn lookup(&mut self, query: &str) -> (found: Option<String>)
        requires
            old(self).wf(),
        ensures
            final(self).wf(),
            final(self)@ == old(self)@.touch(query@),
            match found {
                Some(text) => old(self)@.result(query@) == Some(text@),
                None => old(self)@.result(query@).is_none(),
            },
    {
        proof {
            lemma_touch(self@, query@);
        }
        let ghost before = self@;
        let found = store_get(&mut self.store, query);
        proof {
            match &found {
                Some(text) => {
                    let i = choose|i: int|
                        0 <= i < before.entries.len() && #[trigger] before.entries[i] == (
                            query@,
                            text@,
                        ) && self@.entries == seq![(query@, text@)] + before.entries.remove(i);
                    assert(before.holds_at(query@, i));
                    lemma_position(before, query@);
                },
                None => {
                    assert forall|i: int| !before.holds_at(query@, i) by {}
                },
            }
        }
        found
    }

    /// Caches what `outcome` renders to under `query`, as the most recently
    /// used entry, and returns it. Where the cache is full and `query` is
    /// new to it, the least recently used entry leaves first.
    pub fn store_outcome(&mut self, query: &str, outcome: Result<Option<String>, String>) -> (text:
        String)
        requires
            old(self).wf(),
        ensures
            final(self).wf(),
            text@ == rendered(outcome),
            final(self)@ == old(self)@.insert(query@, text@),
    {
        let ghost before = self@;
        let text = render_outcome(outcome);
        let previous = store_put(&mut self.store, query.to_owned(), text.clone());
        proof {
            lemma_insert(before, query@, text@);
            match &previous {
                Some(p) => {
                    let i = choose|i: int|
                        0 <= i < before.entries.len() && #[trigger] before.entries[i] == (
                            query@,
                            p@,
                        ) && self@.entries == seq![(query@, text@)] + before.entries.remove(i);
                    assert(before.holds_at(query@, i));
                    lemma_position(before, query@);
                },
                None => {
                    assert forall|i: int| !before.holds_at(query@, i) by {}
                },
            }
        }
        text
    }

    /// Serves `query` from the cache where it can, which counts as an
    /// access; otherwise hands `query` as it is to `executor`, once, caches
    /// what the outcome renders to, and returns it. A failure is not passed
    /// on: its description is cached and returned like a result.
    pub fn execute_with_cache<F>(&mut self, query: &str, executor: F) -> (text: String) where
        F: FnOnce(&str) -> Result<Option<String>, String>,
        requires
            old(self).wf(),
            !old(self)@.contains(query@) ==> call_requires(executor, (query,)),
        ensures
            final(self).wf(),
            (final(self)@, text@) == old(self)@.serve(query@, text@),
            !old(self)@.contains(query@) ==> exists|outcome: Result<Option<String>, String>|
                call_ensures(executor, (query,), outcome) && text@ == rendered(outcome),
    {
        match self.lookup(query) {
            Some(cached) => cached,
            None => {
                let outcome = executor(query);
                self.store_outcome(query, outcome)
            },
        }
    }

    /// Removes every entry. The capacity stays.
    pub fn clear_cache(&mut self) -> (confirmation: &'static str)
        requires
            old(self).wf(),
        ensures
            final(self).wf(),
            final(self)@ == old(self)@.cleared(),
            confirmation@ == "Query cache cleared."@,
    {
        store_clear(&mut self.store);
        "Query cache cleared."
    }

    /// Replaces the cache by an empty one of capacity `size`, where `size`
    /// is positive: no entry is carried over. Otherwise nothing changes.
    pub fn resize(&mut self, size: i32) -> (outcome: Result<&'static str, SizeError>)
        requires
            old(self).wf(),
        ensures
            final(self).wf(),
            final(self)@ == old(self)@.resized(validated(Some(size))),
            match outcome {
                Ok(confirmation) => validated(Some(size)).is_ok() && confirmation@
                    == "Cache size updated."@,
                Err(reason) => validated(Some(size)) == Err::<usize, SizeError>(reason),
            },
    {
        if size <= 0 {
            return Err(SizeError::NotPositive);
        }
        self.store = store_new(size as usize);
        Ok("Cache size updated.")
    }

    /// Reads `size_str` as a number and resizes to it: the cache is replaced
    /// by an empty one of that capacity. Where the text is no number, or the
    /// number is not positive, nothing changes.
    pub fn set_cache_size(&mut self, size_str: &str) -> (outcome: Result<&'static str, SizeError>)
        requires
            old(self).wf(),
        ensures
            final(self).wf(),
            final(self)@ == old(self)@.resized(validated(parsed_size(size_str@))),
            match outcome {
                Ok(confirmation) => validated(parsed_size(size_str@)).is_ok() && confirmation@
                    == "Cache size updated."@,
                Err(reason) => validated(parsed_size(size_str@)) == Err::<usize, SizeError>(reason),
            },
    {
        match parse_size(size_str) {
            Some(size) => self.resize(size),
            None => Err(SizeError::NotANumber),
        }
    }
}

} // verus!
