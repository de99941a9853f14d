//! The mathematical model of the cache: a sequence of entries in order of
//! recency, bounded by a capacity, and the transitions between such states.

use crate::size::SizeError;
use vstd::prelude::*;

verus! {

/// The state of a cache as its callers see it.
pub struct CacheModel {
    /// The cached pairs of query text and result text, the most recently
    /// used first and the least recently used last.
    pub entries: Seq<(Seq<char>, Seq<char>)>,
    /// The greatest number of entries the cache may hold.
    pub capacity: nat,
}

impl CacheModel {
    /// The capacity is positive, the entries do not exceed it, and no query
    /// is cached twice.
    pub open spec fn wf(self) -> bool {
        &&& self.capacity >= 1
        &&& self.entries.len() <= self.capacity
        &&& forall|i: int, j: int|
            0 <= i < j < self.entries.len() ==> (#[trigger] self.entries[i]).0 != (
            #[trigger] self.entries[j]).0
    }

    /// The entry at index `i` belongs to `query`.
    pub open spec fn holds_at(self, query: Seq<char>, i: int) -> bool {
        0 <= i < self.entries.len() && self.entries[i].0 == query
    }

    /// `query` is cached.
    pub open spec fn contains(self, query: Seq<char>) -> bool {
        exists|i: int| self.holds_at(query, i)
    }

    /// Where the entry of a cached query stands in the order of recency.
    pub open spec fn position(self, query: Seq<char>) -> int {
        choose|i: int| self.holds_at(query, i)
    }

    /// The result cached for `query`, if any. An empty result is `Some` of
    /// the empty text, which differs from `None`.
    pub open spec fn result(self, query: Seq<char>) -> Option<Seq<char>> {
        if self.contains(query) {
            Some(self.entries[self.position(query)].1)
        } else {
            None
        }
    }

    /// An empty cache of the given capacity.
    pub open spec fn empty(capacity: nat) -> CacheModel {
        CacheModel { entries: Seq::empty(), capacity }
    }

    /// The state after every entry is removed: the capacity stays.
    pub open spec fn cleared(self) -> CacheModel {
        CacheModel::empty(self.capacity)
    }

    /// The state after a request to resize: a granted capacity leaves an
    /// empty cache of that capacity, with no entry carried over; a refused
    /// request leaves everything as it was.
    pub open spec fn resized(self, request: Result<usize, SizeError>) -> CacheModel {
        match request {
            Ok(capacity) => CacheModel::empty(capacity as nat),
            Err(_) => self,
        }
    }

    /// The state after `query` is read: its entry, if there is one, moves to
    /// the front, and nothing else changes.
    pub open spec fn touch(self, query: Seq<char>) -> CacheModel {
        if self.contains(query) {
            let p = self.position(query);
            CacheModel {
                entries: seq![self.entries[p]] + self.entries.remove(p),
                capacity: self.capacity,
            }
        } else {
            self
        }
    }

    /// Storing a result for `query` now costs the least recently used entry its
    /// place.
    pub open spec fn evicts_on(self, query: Seq<char>) -> bool {
        !self.contains(query) && self.entries.len() == self.capacity
    }

    /// The state after `result` is stored under `query`: the new entry stands
    /// in front. An older entry of the same query is replaced; otherwise, if
    /// the cache is full, the last entry leaves.
    pub open spec fn insert(self, query: Seq<char>, result: Seq<char>) -> CacheModel {
        let rest = if self.contains(query) {
            self.entries.remove(self.position(query))
        } else if self.entries.len() == self.capacity {
            self.entries.drop_last()
        } else {
            self.entries
        };
        CacheModel { entries: seq![(query, result)] + rest, capacity: self.capacity }
    }

    /// What one request for `query` does and returns, where `fresh` is the
    /// text that the executor's outcome renders to: a cached result is
    /// returned and refreshed, and `fresh` is not looked at; otherwise
    /// `fresh` is stored and returned.
    pub open spec fn serve(self, query: Seq<char>, fresh: Seq<char>) -> (CacheModel, Seq<char>) {
        match self.result(query) {
            Some(cached) => (self.touch(query), cached),
            None => (self.insert(query, fresh), fresh),
        }
    }
}

/// In a well-formed cache a cached query has exactly one entry, and
/// `position` is its index.
pub proof fn lemma_position(m: CacheModel, query: Seq<char>)
    requires
        m.wf(),
        m.contains(query),
    ensures
        m.holds_at(query, m.position(query)),
        forall|i: int| m.holds_at(query, i) ==> i == m.position(query),
{
    let p = m.position(query);
    assert forall|i: int| m.holds_at(query, i) implies i == p by {
        if i < p {
            assert(m.entries[i].0 != m.entries[p].0);
        } else if p < i {
            assert(m.entries[p].0 != m.entries[i].0);
        }
    }
}

/// An entry found at index `i` is the query's entry.
pub proof fn lemma_found_at(m: CacheModel, query: Seq<char>, i: int)
    requires
        m.wf(),
        m.holds_at(query, i),
    ensures
        m.contains(query),
        m.position(query) == i,
        m.result(query) == Some(m.entries[i].1),
{
    lemma_position(m, query);
}

/// Reading keeps the cache well-formed, the set of cached queries and
/// their results; the query read stands in front afterwards.
pub proof fn lemma_touch(m: CacheModel, query: Seq<char>)
    requires
        m.wf(),
    ensures
        m.touch(query).wf(),
        m.touch(query).capacity == m.capacity,
        m.touch(query).entries.len() == m.entries.len(),
        forall|other: Seq<char>| #[trigger] m.touch(query).result(other) == m.result(other),
        m.contains(query) ==> m.touch(query).holds_at(query, 0),
{
    if m.contains(query) {
        lemma_position(m, query);
        let p = m.position(query);
        let t = m.touch(query);
        // Where each entry of the new order stood in the old one.
        let from = |i: int| if i == 0 { p } else if i <= p { i - 1 } else { i };
        assert forall|i: int| 0 <= i < t.entries.len() implies t.entries[i] == m.entries[from(i)] by {}
        assert forall|i: int, j: int| 0 <= i < j < t.entries.len() implies t.entries[i].0
            != t.entries[j].0 by {
            let a = from(i);
            let b = from(j);
            assert(a != b);
            if a < b {
                assert(m.entries[a].0 != m.entries[b].0);
            } else {
                assert(m.entries[b].0 != m.entries[a].0);
            }
        }
        assert(t.holds_at(query, 0));
        assert forall|other: Seq<char>| #[trigger] t.result(other) == m.result(other) by {
            if m.contains(other) {
                lemma_position(m, other);
                let q = m.position(other);
                let to = if q == p { 0 } else if q < p { q + 1 } else { q };
                assert(t.entries[to] == m.entries[q]);
                lemma_found_at(t, other, to);
            } else if t.contains(other) {
                let i = t.position(other);
                assert(t.holds_at(other, i));
                assert(m.holds_at(other, from(i)));
            }
        }
    }
}

/// Storing keeps the cache well-formed and within its capacity. The stored
/// result is then the query's, in front. Every other query keeps its
/// result, but for the least recently used one where the cache was full and
/// the query new: that one, and no other, is gone.
pub proof fn lemma_insert(m: CacheModel, query: Seq<char>, result: Seq<char>)
    requires
        m.wf(),
    ensures
        m.insert(query, result).wf(),
        m.insert(query, result).capacity == m.capacity,
        m.insert(query, result).holds_at(query, 0),
        m.insert(query, result).result(query) == Some(result),
        m.insert(query, result).entries.len() == if m.contains(query) || m.evicts_on(query) {
            m.entries.len()
        } else {
            m.entries.len() + 1
        },
        forall|other: Seq<char>|
            other != query ==> #[trigger] m.insert(query, result).result(other) == if m.evicts_on(
                query,
            ) && other == m.entries.last().0 {
                None
            } else {
                m.result(other)
            },
{
    let a = m.insert(query, result);
    // Behind the new entry stands the old order with one index left out
    // (`gap`), or whole.
    let gap: int = if m.contains(query) {
        m.position(query)
    } else if m.entries.len() == m.capacity {
        m.entries.len() - 1
    } else {
        m.entries.len() as int
    };
    if m.contains(query) {
        lemma_position(m, query);
    }
    assert(a.entries[0] == (query, result));
    let from = |i: int| if i - 1 < gap { i - 1 } else { i };
    assert forall|i: int| 1 <= i < a.entries.len() implies a.entries[i] == m.entries[from(i)]
        && 0 <= from(i) < m.entries.len() && from(i) != gap by {}
    assert forall|i: int| 1 <= i < a.entries.len() implies a.entries[i].0 != query by {
        assert(!m.holds_at(query, from(i)));
    }
    assert forall|i: int, j: int| 0 <= i < j < a.entries.len() implies a.entries[i].0
        != a.entries[j].0 by {
        if i > 0 {
            let x = from(i);
            let y = from(j);
            assert(x < y);
            assert(m.entries[x].0 != m.entries[y].0);
        }
    }
    assert(a.wf());
    lemma_found_at(a, query, 0);
    assert forall|other: Seq<char>| other != query implies #[trigger] a.result(other) == if m.evicts_on(
        query,
    ) && other == m.entries.last().0 {
        None
    } else {
        m.result(other)
    } by {
        if m.contains(other) {
            lemma_position(m, other);
            let q = m.position(other);
            if q == gap {
                // Only the last entry of a full cache is left out for a new query.
                assert(m.evicts_on(query) && other == m.entries.last().0);
                if a.contains(other) {
                    let i = a.position(other);
                    assert(a.holds_at(other, i));
                    assert(m.holds_at(other, from(i)));
                }
            } else {
                let to = if q < gap { q + 1 } else { q };
                assert(a.entries[to] == m.entries[q]);
                lemma_found_at(a, other, to);
                if m.evicts_on(query) {
                    assert(m.entries.last() == m.entries[gap]);
                    assert(m.entries[q].0 != m.entries[gap].0);
                }
            }
        } else {
            if a.contains(other) {
                let i = a.position(other);
                assert(a.holds_at(other, i));
                assert(m.holds_at(other, from(i)));
            }
            if m.evicts_on(query) {
                assert(m.holds_at(m.entries.last().0, m.entries.len() - 1));
            }
        }
    }
}

} // verus!
