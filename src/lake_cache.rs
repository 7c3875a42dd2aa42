//! The request coalescer in front of the lake's object store: a bounded
//! least-recently-used table from object prefix to the one fetch in flight (or
//! finished) for it. Callers that find a prefix join its fetch; the first caller
//! leads a new one; a failed fetch is forgotten so that the next caller retries.
use vstd::prelude::*;
use cached::{Cached, CachedPeek, LruCache};
use crate::text::split_on;

verus! {

/// Number of entries the table keeps: about one hour of new lake files.
pub const CACHE_SIZE: usize = 18_000;

#[verifier::external_type_specification]
#[verifier::external_body]
#[verifier::reject_recursive_types(K)]
#[verifier::reject_recursive_types(V)]
#[verifier::reject_recursive_types(S)]
pub struct ExLruCache<K, V, S>(LruCache<K, V, S>);

/// The entries of an LRU table from prefix to fetch number.
pub uninterp spec fn lru_entries(c: LruCache<String, u64>) -> Map<Seq<char>, u64>;

/// The number of entries an LRU table was made to hold.
pub uninterp spec fn lru_capacity(c: LruCache<String, u64>) -> nat;

/// Relies on `LruCache::builder().max_size(max_size).build()`: an empty table
/// holding up to `max_size` entries, or an error where the size is zero or the
/// table's storage cannot be allocated.
#[verifier::external_body]
fn lru_build(max_size: usize) -> (r: Option<LruCache<String, u64>>)
    ensures
        max_size == 0 ==> r is None,
        r is Some ==> lru_entries(r->0).dom() == Set::<Seq<char>>::empty() && lru_capacity(r->0) == max_size,
{
    LruCache::builder().max_size(max_size).build().ok()
}

/// Relies on `Cached::cache_get` of `LruCache`: the entry for `key`, if any; the
/// lookup only refreshes the entry's recency.
#[verifier::external_body]
fn lru_get(c: &mut LruCache<String, u64>, key: &str) -> (r: Option<u64>)
    ensures
        lru_entries(*final(c)) == lru_entries(*old(c)),
        lru_capacity(*final(c)) == lru_capacity(*old(c)),
        r == (if lru_entries(*old(c)).contains_key(key@) {
            Some(lru_entries(*old(c))[key@])
        } else {
            None::<u64>
        }),
{
    c.cache_get(key).copied()
}

/// Relies on `CachedPeek::cache_peek` of `LruCache`: the entry for `key`, if any,
/// without touching recency.
#[verifier::external_body]
fn lru_peek(c: &LruCache<String, u64>, key: &str) -> (r: Option<u64>)
    ensures
        r == (if lru_entries(*c).contains_key(key@) {
            Some(lru_entries(*c)[key@])
        } else {
            None::<u64>
        }),
{
    c.cache_peek(key).copied()
}

/// Relies on `Cached::cache_set` of `LruCache`: inserts or replaces the entry for
/// `key`, then evicts least recently used entries while over capacity (never the
/// one just set); returns the value it replaced.
#[verifier::external_body]
fn lru_set(c: &mut LruCache<String, u64>, key: String, value: u64) -> (r: Option<u64>)
    requires
        lru_capacity(*old(c)) > 0,
    ensures
        lru_capacity(*final(c)) == lru_capacity(*old(c)),
        lru_entries(*final(c)).contains_key(key@),
        lru_entries(*final(c))[key@] == value,
        lru_entries(*final(c)).dom().finite() && lru_entries(*final(c)).len() <= lru_capacity(*final(c)),
        forall|k: Seq<char>| #[trigger] lru_entries(*final(c)).contains_key(k) && k != key@ ==> lru_entries(
            *old(c),
        ).contains_key(k) && lru_entries(*final(c))[k] == lru_entries(*old(c))[k],
        lru_entries(*old(c)).contains_key(key@) || lru_entries(*old(c)).len() < lru_capacity(*old(c))
            ==> lru_entries(*final(c)) == lru_entries(*old(c)).insert(key@, value),
        r == (if lru_entries(*old(c)).contains_key(key@) {
            Some(lru_entries(*old(c))[key@])
        } else {
            None::<u64>
        }),
{
    c.cache_set(key, value)
}

/// Relies on `Cached::cache_remove` of `LruCache`: removes the entry for `key`,
/// returning its value.
#[verifier::external_body]
fn lru_remove(c: &mut LruCache<String, u64>, key: &str) -> (r: Option<u64>)
    ensures
        lru_capacity(*final(c)) == lru_capacity(*old(c)),
        lru_entries(*final(c)) == lru_entries(*old(c)).remove(key@),
        lru_entries(*final(c)).dom().finite() ==> lru_entries(*final(c)).len() <= lru_entries(*old(c)).len(),
        r == (if lru_entries(*old(c)).contains_key(key@) {
            Some(lru_entries(*old(c))[key@])
        } else {
            None::<u64>
        }),
{
    c.cache_remove(key)
}

/// How a caller takes part in the fetch of a prefix.
#[derive(Clone, Copy, Debug, PartialEq, Eq, Structural)]
pub enum Flight {
    /// Await the fetch with this number, already under way or done.
    Join(u64),
    /// Start the fetch with this number; later callers join it.
    Lead(u64),
}

pub open spec fn flight_id(f: Flight) -> u64 {
    match f {
        Flight::Join(id) => id,
        Flight::Lead(id) => id,
    }
}

/// The table of fetches by prefix.
pub struct FuturesCache {
    cache: LruCache<String, u64>,
    next_id: u64,
}

/// What `get_or_set_with` does: a prefix in the table is joined; another gets a
/// new fetch number, which the table then holds for it.
pub open spec fn get_or_set_post(before: FuturesCache, after: FuturesCache, key: Seq<char>, r: Flight) -> bool {
    &&& after.wf()
    &&& if before.entries().contains_key(key) {
        &&& r == Flight::Join(before.entries()[key])
        &&& after.entries() == before.entries()
    } else {
        &&& r is Lead
        &&& after.entries().contains_key(key)
        &&& after.entries()[key] == flight_id(r)
        &&& forall|k: Seq<char>| #[trigger] after.entries().contains_key(k) && k != key
            ==> before.entries().contains_key(k) && after.entries()[k] == before.entries()[k]
        &&& before.entries().len() < before.capacity() ==> after.entries() == before.entries().insert(key, flight_id(r))
    }
    &&& after.capacity() == before.capacity()
}

/// What `settle` does: a failed fetch's prefix leaves the table; a successful one stays.
pub open spec fn settle_post(before: FuturesCache, after: FuturesCache, key: Seq<char>, succeeded: bool) -> bool {
    &&& after.wf()
    &&& after.capacity() == before.capacity()
    &&& if succeeded {
        after.entries() == before.entries()
    } else {
        after.entries() == before.entries().remove(key)
    }
}

impl FuturesCache {
    /// The table's entries: prefix to fetch number.
    pub closed spec fn entries(self) -> Map<Seq<char>, u64> {
        lru_entries(self.cache)
    }

    /// The number of entries the table keeps before it evicts the least recently used.
    pub closed spec fn capacity(self) -> nat {
        lru_capacity(self.cache)
    }

    pub closed spec fn wf(self) -> bool {
        &&& lru_capacity(self.cache) > 0
        &&& lru_entries(self.cache).dom().finite()
        &&& lru_entries(self.cache).len() <= lru_capacity(self.cache)
    }

    /// An empty table of `size` entries; `None` for a zero size or where its
    /// storage cannot be allocated.
    pub fn with_size(size: usize) -> (r: Option<Self>)
        ensures
            size == 0 ==> r is None,
            r is Some ==> r->0.wf() && r->0.entries() == Map::<Seq<char>, u64>::empty() && r->0.capacity() == size,
    {
        match lru_build(size) {
            Some(cache) => {
                assert(lru_entries(cache) =~= Map::<Seq<char>, u64>::empty());
                Some(FuturesCache { cache, next_id: 0 })
            },
            None => None,
        }
    }

    /// The fetch number held for `key`, if any.
    pub fn get(&self, key: &str) -> (r: Option<u64>)
        ensures
            r == (if self.entries().contains_key(key@) {
                Some(self.entries()[key@])
            } else {
                None::<u64>
            }),
    {
        lru_peek(&self.cache, key)
    }

    /// Joins the fetch held for `key`, or starts a new one and holds it.
    pub fn get_or_set_with(&mut self, key: String) -> (r: Flight)
        requires
            old(self).wf(),
        ensures
            get_or_set_post(*old(self), *final(self), key@, r),
    {
        match lru_get(&mut self.cache, key.as_str()) {
            Some(id) => Flight::Join(id),
            None => {
                let id = self.next_id;
                self.next_id = self.next_id.wrapping_add(1);
                lru_set(&mut self.cache, key, id);
                Flight::Lead(id)
            },
        }
    }

    /// Forgets the fetch held for `key`.
    pub fn remove(&mut self, key: &str)
        requires
            old(self).wf(),
        ensures
            final(self).wf(),
            final(self).capacity() == old(self).capacity(),
            final(self).entries() == old(self).entries().remove(key@),
    {
        lru_remove(&mut self.cache, key);
    }

    /// Takes the outcome of the fetch for `key`: a failed one is forgotten, so that
    /// errors are never served from the table.
    pub fn settle(&mut self, key: &str, succeeded: bool)
        requires
            old(self).wf(),
        ensures
            settle_post(*old(self), *final(self), key@, succeeded),
    {
        if !succeeded {
            self.remove(key);
        }
    }
}

/// Callers that ask for the same prefix before its fetch settles share one fetch:
/// at most one of them leads, and both await the same fetch number.
pub proof fn lemma_concurrent_callers_share_one_fetch(
    t0: FuturesCache,
    t1: FuturesCache,
    t2: FuturesCache,
    key: Seq<char>,
    first: Flight,
    second: Flight,
)
    requires
        get_or_set_post(t0, t1, key, first),
        get_or_set_post(t1, t2, key, second),
    ensures
        second == Flight::Join(flight_id(first)),
        !(first is Lead && second is Lead),
{
}

/// In a fresh table the first caller of any prefix leads its fetch.
pub proof fn lemma_fresh_table_first_caller_leads(t0: FuturesCache, t1: FuturesCache, key: Seq<char>, first: Flight)
    requires
        t0.entries() == Map::<Seq<char>, u64>::empty(),
        get_or_set_post(t0, t1, key, first),
    ensures
        first is Lead,
        t1.entries() == Map::<Seq<char>, u64>::empty().insert(key, flight_id(first)),
{
    if t0.capacity() > 0 {
        assert(t0.entries().dom() =~= Set::<Seq<char>>::empty());
    }
    assert(t1.entries() =~= Map::<Seq<char>, u64>::empty().insert(key, flight_id(first)));
}

/// After a failed fetch settles, the table holds nothing for its prefix, and the
/// next caller leads a new fetch.
pub proof fn lemma_failed_fetch_is_retried(
    t0: FuturesCache,
    t1: FuturesCache,
    t2: FuturesCache,
    key: Seq<char>,
    next: Flight,
)
    requires
        settle_post(t0, t1, key, false),
        get_or_set_post(t1, t2, key, next),
    ensures
        !t1.entries().contains_key(key),
        next is Lead,
{
}

/// The first `/`-separated segment of each listed prefix, skipping absent ones.
pub open spec fn first_segments(prefixes: Seq<Option<Seq<char>>>) -> Seq<Seq<char>>
    decreases prefixes.len(),
{
    if prefixes.len() == 0 {
        Seq::empty()
    } else {
        let rest = first_segments(prefixes.drop_last());
        match prefixes.last() {
            Some(p) => rest.push(split_on(p, '/')[0]),
            None => rest,
        }
    }
}

pub open spec fn optional_strings_view(v: Seq<Option<String>>) -> Seq<Option<Seq<char>>> {
    v.map_values(|o: Option<String>| match o {
        Some(s) => Some(s@),
        None => None,
    })
}

/// The first path segment of each common prefix a listing returned.
pub fn common_prefix_segments(prefixes: Vec<Option<String>>) -> (r: Vec<String>)
    ensures
        r@.map_values(|s: String| s@) == first_segments(optional_strings_view(prefixes@)),
{
    let ghost ps = optional_strings_view(prefixes@);
    let mut out: Vec<String> = Vec::new();
    let mut i: usize = 0;
    while i < prefixes.len()
        invariant
            i <= prefixes@.len(),
            ps == optional_strings_view(prefixes@),
            out@.map_values(|s: String| s@) == first_segments(ps.subrange(0, i as int)),
        decreases prefixes@.len() - i,
    {
        let ghost before = out@;
        proof {
            assert(ps.subrange(0, i + 1).drop_last() =~= ps.subrange(0, i as int));
        }
        match &prefixes[i] {
            Some(p) => {
                let pieces = crate::text::split_char(p.as_str(), '/');
                proof {
                    crate::text::lemma_split_nonempty(p@, '/');
                }
                let seg = pieces[0].clone();
                proof {
                    assert(pieces@.map_values(|s: String| s@)[0] == pieces@[0]@);
                    assert(ps[i as int] == Some(p@));
                }
                out.push(seg);
            },
            None => {},
        }
        assert(out@.map_values(|s: String| s@) =~= first_segments(ps.subrange(0, i + 1)));
        i = i + 1;
    }
    assert(ps.subrange(0, prefixes@.len() as int) =~= ps);
    out
}

} // verus!
