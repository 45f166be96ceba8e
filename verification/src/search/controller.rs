//! Search scopes and the discarding of stale results.

use vstd::prelude::*;

verus! {

/// Search scope for filtering results by content type.
#[derive(Clone, Copy, Debug, PartialEq, Eq, Structural)]
pub enum SearchScope {
    /// Search across all content types.
    All,
    /// Search only albums.
    Albums,
    /// Search only tracks.
    Tracks,
    /// Search only artists.
    Artists,
    /// Search only playlists.
    Playlists,
}

/// The scope at each position of the scope dropdown.
pub open spec fn scope_of_index(v: u32) -> SearchScope {
    if v == 1 {
        SearchScope::Albums
    } else if v == 2 {
        SearchScope::Tracks
    } else if v == 3 {
        SearchScope::Artists
    } else if v == 4 {
        SearchScope::Playlists
    } else {
        SearchScope::All
    }
}

/// The position of each scope in the scope dropdown.
pub open spec fn index_of_scope(s: SearchScope) -> u32 {
    match s {
        SearchScope::All => 0,
        SearchScope::Albums => 1,
        SearchScope::Tracks => 2,
        SearchScope::Artists => 3,
        SearchScope::Playlists => 4,
    }
}

impl SearchScope {
    /// Converts a u32 index to a `SearchScope`; unknown indices mean all.
    pub fn from_u32(v: u32) -> (s: Self)
        ensures
            s == scope_of_index(v),
    {
        match v {
            1 => SearchScope::Albums,
            2 => SearchScope::Tracks,
            3 => SearchScope::Artists,
            4 => SearchScope::Playlists,
            _ => SearchScope::All,
        }
    }

    /// Converts this `SearchScope` to a u32 index for the dropdown.
    pub fn to_u32(self) -> (v: u32)
        ensures
            v == index_of_scope(self),
    {
        match self {
            SearchScope::All => 0,
            SearchScope::Albums => 1,
            SearchScope::Tracks => 2,
            SearchScope::Artists => 3,
            SearchScope::Playlists => 4,
        }
    }
}

/// Every scope survives the round trip through its index, and every index
/// of the dropdown survives the round trip through its scope.
pub proof fn lemma_scope_index_round_trip(s: SearchScope, v: u32)
    ensures
        scope_of_index(index_of_scope(s)) == s,
        v <= 4 ==> index_of_scope(scope_of_index(v)) == v,
{
}

/// A query is worth sending: it is not blank.
pub fn is_searchable_query(query: &str) -> (b: bool)
    ensures
        b == (crate::text::trim(query@).len() > 0),
{
    let t = crate::text::trim_chars(&crate::text::chars_of(query));
    t.len() > 0
}

/// The counter of submitted queries; a result is current only for the most
/// recent query.
pub struct QueryCounter {
    /// Number of queries submitted so far (wrapping).
    pub value: u64,
}

impl QueryCounter {
    /// No query submitted yet.
    pub fn new() -> (c: Self)
        ensures
            c.value == 0,
    {
        QueryCounter { value: 0 }
    }

    /// Submits a query: returns its ID (the count before it) and advances
    /// the counter, wrapping like an atomic `fetch_add`.
    pub fn submit(&mut self) -> (id: u64)
        ensures
            id == old(self).value,
            final(self).value == advanced(old(self).value),
    {
        let id = self.value;
        self.value = if id == u64::MAX {
            0
        } else {
            id + 1
        };
        id
    }
}

/// Checks if the result of query `query_id` is stale: another query was
/// submitted after it.
pub fn is_stale_query(counter: &QueryCounter, query_id: u64) -> (stale: bool)
    requires
        query_id < u64::MAX,
    ensures
        stale == (counter.value != query_id + 1),
{
    counter.value != query_id + 1
}

/// The counter after one more submission (wrapping).
pub open spec fn advanced(value: u64) -> u64 {
    if value == u64::MAX {
        0
    } else {
        (value + 1) as u64
    }
}

/// Of two successive searches, the first one's result is current until the
/// second is submitted and stale after it, and the second one's result is
/// then current; this holds across the counter's wrap too. (`is_stale_query`
/// is asked only of IDs below `u64::MAX`, where `query_id + 1` does not
/// overflow.)
pub proof fn lemma_latest_query_is_current(c0: QueryCounter, id1: u64, c1: QueryCounter, id2: u64, c2: QueryCounter)
    requires
        id1 == c0.value,
        c1.value == advanced(c0.value),
        id2 == c1.value,
        c2.value == advanced(c1.value),
        id1 < u64::MAX,
    ensures
        c1.value == id1 + 1,
        c2.value != id1 + 1,
        id2 < u64::MAX ==> c2.value == id2 + 1,
{
}

/// The search page's controller: numbers the queries it sends so that only
/// the latest one's results are shown. The application runs each query on
/// the API and drops its results when `is_stale_query` says so.
pub struct SearchController {
    /// The counter of submitted queries.
    pub query_counter: QueryCounter,
}

impl SearchController {
    /// A controller that has sent no query yet.
    pub fn new() -> (c: Self)
        ensures
            c.query_counter.value == 0,
    {
        SearchController { query_counter: QueryCounter::new() }
    }

    /// Submits a scoped search query: a blank query is not sent (`None`, the
    /// counter unchanged); any other gets the next query ID, which the
    /// counter then passes.
    pub fn search_scoped(&mut self, query: &str) -> (id: Option<u64>)
        ensures
            crate::text::trim(query@).len() == 0 ==> id is None && final(self).query_counter
                == old(self).query_counter,
            crate::text::trim(query@).len() > 0 ==> id == Some(old(self).query_counter.value)
                && final(self).query_counter.value == advanced(old(self).query_counter.value),
    {
        if !is_searchable_query(query) {
            return None;
        }
        Some(self.query_counter.submit())
    }
}

} // verus!
