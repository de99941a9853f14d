//! What holds of every cache, proved from the model of its operations.

use crate::executor::rendered;
use crate::model::{lemma_insert, lemma_touch, CacheModel};
use crate::size::SizeError;
use vstd::prelude::*;

verus! {

/// A request for a query that is not cached leaves it cached, with the text
/// that the executor's outcome renders to, and returns that text.
pub proof fn law_miss_populates(m: CacheModel, query: Seq<char>, fresh: Seq<char>)
    requires
        m.wf(),
        !m.contains(query),
    ensures
        m.serve(query, fresh).0.wf(),
        m.serve(query, fresh).0.contains(query),
        m.serve(query, fresh).0.result(query) == Some(fresh),
        m.serve(query, fresh).1 == fresh,
{
    lemma_insert(m, query, fresh);
}

/// Whatever a request finds, the query is cached afterwards with the text
/// that the request returned.
pub proof fn law_served_is_cached(m: CacheModel, query: Seq<char>, fresh: Seq<char>)
    requires
        m.wf(),
    ensures
        m.serve(query, fresh).0.wf(),
        m.serve(query, fresh).0.capacity == m.capacity,
        m.serve(query, fresh).0.result(query) == Some(m.serve(query, fresh).1),
{
    lemma_insert(m, query, fresh);
    lemma_touch(m, query);
}

/// Of two requests for one query in succession, the second is served from
/// the cache: it returns what the first returned, whatever an executor
/// would answer by then, so none is asked.
pub proof fn law_second_request_hits(
    m: CacheModel,
    query: Seq<char>,
    first: Seq<char>,
    second: Seq<char>,
)
    requires
        m.wf(),
    ensures
        m.serve(query, first).0.contains(query),
        m.serve(query, first).0.serve(query, second).1 == m.serve(query, first).1,
        m.serve(query, first).0.serve(query, second).0 == m.serve(query, first).0.touch(query),
{
    law_served_is_cached(m, query, first);
}

/// After clearing, no query is cached, whatever was before; the capacity is
/// the same.
pub proof fn law_clear_empties(m: CacheModel, query: Seq<char>)
    requires
        m.wf(),
    ensures
        m.cleared().wf(),
        !m.cleared().contains(query),
        m.cleared().result(query).is_none(),
        m.cleared().capacity == m.capacity,
{
}

/// A cache never holds more entries than its capacity, through any request.
pub proof fn law_capacity_bounds(m: CacheModel, query: Seq<char>, fresh: Seq<char>)
    requires
        m.wf(),
    ensures
        m.serve(query, fresh).0.entries.len() <= m.capacity,
        m.touch(query).entries.len() <= m.capacity,
        m.insert(query, fresh).entries.len() <= m.capacity,
{
    lemma_insert(m, query, fresh);
    lemma_touch(m, query);
}

/// Where a full cache stores a result for a query new to it, exactly one
/// entry leaves, the least recently used one: its query is no longer
/// cached, and every other query keeps its result.
pub proof fn law_eviction_takes_least_recent(
    m: CacheModel,
    query: Seq<char>,
    fresh: Seq<char>,
    other: Seq<char>,
)
    requires
        m.wf(),
        m.evicts_on(query),
        other != query,
    ensures
        m.insert(query, fresh).entries.len() == m.entries.len(),
        m.insert(query, fresh).result(other) == if other == m.entries.last().0 {
            None
        } else {
            m.result(other)
        },
{
    lemma_insert(m, query, fresh);
}

/// Where the cache has room, or the query is cached already, storing a
/// result for it evicts nothing: every other query keeps its result.
pub proof fn law_no_eviction_with_room(
    m: CacheModel,
    query: Seq<char>,
    fresh: Seq<char>,
    other: Seq<char>,
)
    requires
        m.wf(),
        !m.evicts_on(query),
        other != query,
    ensures
        m.insert(query, fresh).result(other) == m.result(other),
{
    lemma_insert(m, query, fresh);
}

/// A hit counts as an access: the query served stands first in the order
/// of recency afterwards, and no result changes.
pub proof fn law_hit_refreshes(m: CacheModel, query: Seq<char>, fresh: Seq<char>, other: Seq<char>)
    requires
        m.wf(),
        m.contains(query),
    ensures
        m.serve(query, fresh).0.entries[0].0 == query,
        m.serve(query, fresh).0.result(other) == m.result(other),
        m.serve(query, fresh).0.entries.len() == m.entries.len(),
{
    lemma_touch(m, query);
}

/// In a cache of capacity two, three distinct queries in a row leave the
/// second and the third cached and the first evicted.
pub proof fn law_eviction_order(
    a: Seq<char>,
    b: Seq<char>,
    c: Seq<char>,
    ra: Seq<char>,
    rb: Seq<char>,
    rc: Seq<char>,
)
    requires
        a != b,
        a != c,
        b != c,
    ensures
        ({
            let end = CacheModel::empty(2).serve(a, ra).0.serve(b, rb).0.serve(c, rc).0;
            &&& end.wf()
            &&& end.result(a).is_none()
            &&& end.result(b) == Some(rb)
            &&& end.result(c) == Some(rc)
            &&& end.entries.len() == 2
        }),
{
    let m0 = CacheModel::empty(2);
    assert(!m0.contains(a));
    lemma_insert(m0, a, ra);
    let m1 = m0.serve(a, ra).0;
    assert(m1.entries.len() == 1);
    assert(m1.result(b).is_none());
    lemma_insert(m1, b, rb);
    let m2 = m1.serve(b, rb).0;
    assert(m2.entries.len() == 2);
    assert(m2.result(c).is_none());
    assert(m2.entries.last() == m1.entries[0]);
    lemma_insert(m2, c, rc);
}

/// In a cache of capacity two that holds two queries, a request for the
/// older one refreshes it: a third query then evicts the other one.
pub proof fn law_recency_refresh(
    a: Seq<char>,
    b: Seq<char>,
    c: Seq<char>,
    ra: Seq<char>,
    rb: Seq<char>,
    rc: Seq<char>,
    again: Seq<char>,
)
    requires
        a != b,
        a != c,
        b != c,
    ensures
        ({
            let hit = CacheModel::empty(2).serve(a, ra).0.serve(b, rb).0.serve(a, again);
            let end = hit.0.serve(c, rc).0;
            &&& hit.1 == ra
            &&& end.wf()
            &&& end.result(a) == Some(ra)
            &&& end.result(b).is_none()
            &&& end.result(c) == Some(rc)
        }),
{
    let m0 = CacheModel::empty(2);
    assert(!m0.contains(a));
    lemma_insert(m0, a, ra);
    let m1 = m0.serve(a, ra).0;
    assert(m1.entries.len() == 1);
    assert(m1.result(b).is_none());
    lemma_insert(m1, b, rb);
    let m2 = m1.serve(b, rb).0;
    assert(m2.entries.len() == 2);
    assert(m2.result(a) == Some(ra));
    lemma_touch(m2, a);
    let m3 = m2.serve(a, again).0;
    assert(m3 == m2.touch(a));
    assert(m3.result(c) == m2.result(c));
    assert(m3.result(b) == Some(rb));
    // The query read stands in front, so the other one stands last.
    assert(m3.holds_at(a, 0));
    assert(m3.entries.last().0 == b) by {
        assert(m3.contains(b));
        let p = m3.position(b);
        assert(m3.holds_at(b, p));
        assert(p != 0);
    }
    lemma_insert(m3, c, rc);
}

/// A refused request to resize leaves entries and capacity as they were;
/// a granted one leaves an empty cache, in which a query is then cached
/// like in any other.
pub proof fn law_resize(m: CacheModel, capacity: usize, query: Seq<char>)
    requires
        m.wf(),
        capacity >= 1,
    ensures
        forall|reason: SizeError| #[trigger] m.resized(Err(reason)) == m,
        m.resized(Ok(capacity)).wf(),
        m.resized(Ok(capacity)).capacity == capacity,
        !m.resized(Ok(capacity)).contains(query),
{
}

/// A failed execution is cached as its description: the request returns
/// it, and so does the next request for the query, whatever an executor
/// would answer by then.
pub proof fn law_failure_is_cached(
    m: CacheModel,
    query: Seq<char>,
    description: String,
    later: Seq<char>,
)
    requires
        m.wf(),
        !m.contains(query),
    ensures
        ({
            let failed = m.serve(query, rendered(Err(description)));
            &&& failed.1 == description@
            &&& failed.0.result(query) == Some(description@)
            &&& failed.0.serve(query, later).1 == description@
        }),
{
    law_miss_populates(m, query, rendered(Err(description)));
}

/// An execution without a result is cached as the empty text: the query
/// counts as cached from then on, and the next request for it returns the
/// empty text whatever an executor would answer by then. A query that was
/// not cached before and is not the one asked for is still not cached.
pub proof fn law_no_result_is_cached(
    m: CacheModel,
    query: Seq<char>,
    other: Seq<char>,
    later: Seq<char>,
)
    requires
        m.wf(),
        !m.contains(query),
        !m.contains(other),
        other != query,
    ensures
        ({
            let served = m.serve(query, rendered(Ok(None)));
            &&& served.1 == Seq::<char>::empty()
            &&& served.0.contains(query)
            &&& served.0.result(query) == Some(Seq::<char>::empty())
            &&& served.0.serve(query, later).1 == Seq::<char>::empty()
            &&& !served.0.contains(other)
            &&& served.0.result(other).is_none()
        }),
{
    law_miss_populates(m, query, rendered(Ok(None)));
    lemma_insert(m, query, rendered(Ok(None)));
}

} // verus!
