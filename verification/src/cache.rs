//! The cache of rendered pastes: a bounded, weighted store from storage keys
//! to renderings with least-recently-used eviction, kept in a
//! `clru::CLruCache`.
//!
//! The model of the store is the sequence of its entries, most recently
//! used first. Every entry is charged the weight of its rendering and one
//! unit more, and the charges never sum beyond the limit.

use crate::config::Config;
use clru::{CLruCache, CLruCacheConfig, WeightScale};
use fnv::FnvBuildHasher;
use std::num::NonZeroUsize;
use vstd::prelude::*;
use vstd::utf8::encode_utf8;

verus! {

/// What the scale adds to the bytes of a rendering: the size of the string
/// that holds it.
pub const ENTRY_OVERHEAD: usize = 24;

/// The weight that the scale gives a rendering: its length in bytes plus
/// `ENTRY_OVERHEAD`, held at `usize::MAX`.
pub open spec fn html_weight(html: Seq<char>) -> nat {
    let n = encode_utf8(html).len() + ENTRY_OVERHEAD as nat;
    if n > usize::MAX as nat {
        usize::MAX as nat
    } else {
        n
    }
}

/// Weighs a cached rendering by the memory that its string takes.
pub struct StringScale;

impl WeightScale<i64, String> for StringScale {
    /// The bytes of the rendering and `ENTRY_OVERHEAD`; the key adds nothing.
    fn weight(&self, _key: &i64, value: &String) -> (w: usize)
        ensures
            w == html_weight(value@),
    {
        let n: usize = value.as_str().as_bytes().len();
        if n > usize::MAX - ENTRY_OVERHEAD {
            usize::MAX
        } else {
            n + ENTRY_OVERHEAD
        }
    }
}

/// The sum of the weights of the entries.
pub open spec fn total_weight(entries: Seq<(i64, Seq<char>)>) -> nat
    decreases entries.len(),
{
    if entries.len() == 0 {
        0
    } else {
        html_weight(entries[0].1) + total_weight(entries.skip(1))
    }
}

/// What the entries are charged together: their weights and one unit each.
pub open spec fn total_cost(entries: Seq<(i64, Seq<char>)>) -> nat {
    entries.len() + total_weight(entries)
}

/// The rendering stored under a key, if any.
pub open spec fn find(entries: Seq<(i64, Seq<char>)>, key: i64) -> Option<Seq<char>>
    decreases entries.len(),
{
    if entries.len() == 0 {
        None
    } else if entries[0].0 == key {
        Some(entries[0].1)
    } else {
        find(entries.skip(1), key)
    }
}

/// The entries without those of a key, in their order.
pub open spec fn without(entries: Seq<(i64, Seq<char>)>, key: i64) -> Seq<(i64, Seq<char>)>
    decreases entries.len(),
{
    if entries.len() == 0 {
        entries
    } else if entries[0].0 == key {
        without(entries.skip(1), key)
    } else {
        seq![entries[0]] + without(entries.skip(1), key)
    }
}

/// No key occurs twice.
pub open spec fn distinct_keys(entries: Seq<(i64, Seq<char>)>) -> bool
    decreases entries.len(),
{
    entries.len() == 0 || (find(entries.skip(1), entries[0].0).is_none() && distinct_keys(
        entries.skip(1),
    ))
}

/// How many of the most recently used entries stay when `room` is left for
/// them: the length of the longest prefix that is charged no more than
/// `room`.
pub open spec fn kept(entries: Seq<(i64, Seq<char>)>, room: int) -> nat
    decreases entries.len(),
{
    if entries.len() == 0 || html_weight(entries[0].1) + 1 > room {
        0
    } else {
        1 + kept(entries.skip(1), room - (html_weight(entries[0].1) + 1))
    }
}

/// The entries after a read of `key`: its entry, if there is one, moves to
/// the front.
pub open spec fn touched(entries: Seq<(i64, Seq<char>)>, key: i64) -> Seq<(i64, Seq<char>)> {
    match find(entries, key) {
        Some(html) => seq![(key, html)] + without(entries, key),
        None => entries,
    }
}

/// Whether a rendering can be stored at all under a limit.
pub open spec fn fits(limit: nat, html: Seq<char>) -> bool {
    html_weight(html) + 1 <= limit
}

/// The entries after a rendering that fits was taken under `key`: an
/// earlier entry of the key leaves, the new one comes to the front, and of
/// the others the most recently used stay, as many as the limit has room
/// for.
pub open spec fn inserted(
    entries: Seq<(i64, Seq<char>)>,
    limit: nat,
    key: i64,
    html: Seq<char>,
) -> Seq<(i64, Seq<char>)> {
    let rest = without(entries, key);
    seq![(key, html)] + rest.take(kept(rest, limit - (html_weight(html) + 1)) as int)
}

/// The entries after `html` was put under `key`: taken as `inserted` says
/// where it fits, and dropped, with any earlier entry of the key, where it
/// does not.
pub open spec fn stored(
    entries: Seq<(i64, Seq<char>)>,
    limit: nat,
    key: i64,
    html: Seq<char>,
) -> Seq<(i64, Seq<char>)> {
    if fits(limit, html) {
        inserted(entries, limit, key, html)
    } else {
        without(entries, key)
    }
}

/// The entries after a run of puts into an empty cache.
pub open spec fn after_puts(limit: nat, puts: Seq<(i64, Seq<char>)>) -> Seq<(i64, Seq<char>)>
    decreases puts.len(),
{
    if puts.len() == 0 {
        Seq::empty()
    } else {
        stored(after_puts(limit, puts.drop_last()), limit, puts.last().0, puts.last().1)
    }
}

/// The store of rendered pastes: a `clru::CLruCache` from storage keys to
/// renderings, hashed with FNV and weighed by `StringScale`.
#[verifier::external_body]
pub struct HtmlCache {
    inner: CLruCache<i64, String, FnvBuildHasher, StringScale>,
}

/// The entries of the store, most recently used first.
pub uninterp spec fn cache_entries(c: HtmlCache) -> Seq<(i64, Seq<char>)>;

/// The limit that the store was made with.
pub uninterp spec fn cache_limit(c: HtmlCache) -> nat;

/// Builds the store with `CLruCacheConfig::new`, `with_hasher`, `with_scale`
/// and `CLruCache::with_config`: it starts empty, under the limit given.
#[verifier::external_body]
fn lru_new(limit: usize) -> (c: HtmlCache)
    requires
        limit > 0,
    ensures
        cache_entries(c) == Seq::<(i64, Seq<char>)>::empty(),
        cache_limit(c) == limit,
{
    let config = CLruCacheConfig::new(NonZeroUsize::new(limit).unwrap())
        .with_hasher(FnvBuildHasher::default())
        .with_scale(StringScale);
    HtmlCache { inner: CLruCache::with_config(config) }
}

/// Calls `CLruCache::get` and copies what it found: the entry of the key
/// moves to the front, and nothing else changes.
#[verifier::external_body]
fn lru_get(c: &mut HtmlCache, key: i64) -> (found: Option<String>)
    ensures
        cache_entries(*final(c)) == touched(cache_entries(*old(c)), key),
        cache_limit(*final(c)) == cache_limit(*old(c)),
        match found {
            Some(html) => find(cache_entries(*old(c)), key) == Some(html@),
            None => find(cache_entries(*old(c)), key).is_none(),
        },
{
    c.inner.get(&key).cloned()
}

/// Calls `CLruCache::put_with_weight` and tells whether the entry was taken.
/// The crate refuses, and changes nothing, where the weight of the new entry
/// is not below the limit. Else it takes out an earlier entry of the key,
/// then removes entries from the least recently used end while the number of
/// entries, their weights and the new weight together are not below the
/// limit, and puts the new entry at the front. It adds these numbers as
/// `usize`: the limit must leave room for that.
#[verifier::external_body]
fn lru_put(c: &mut HtmlCache, key: i64, html: String) -> (taken: bool)
    requires
        2 * cache_limit(*old(c)) <= usize::MAX,
    ensures
        taken == fits(cache_limit(*old(c)), html@),
        cache_limit(*final(c)) == cache_limit(*old(c)),
        cache_entries(*final(c)) == if taken {
            inserted(cache_entries(*old(c)), cache_limit(*old(c)), key, html@)
        } else {
            cache_entries(*old(c))
        },
{
    c.inner.put_with_weight(key, html).is_ok()
}

/// Calls `CLruCache::pop`: the entry of the key leaves, if there is one, and
/// its rendering is handed out.
#[verifier::external_body]
fn lru_pop(c: &mut HtmlCache, key: i64) -> (removed: Option<String>)
    ensures
        cache_entries(*final(c)) == without(cache_entries(*old(c)), key),
        cache_limit(*final(c)) == cache_limit(*old(c)),
        match removed {
            Some(html) => find(cache_entries(*old(c)), key) == Some(html@),
            None => find(cache_entries(*old(c)), key).is_none(),
        },
{
    c.inner.pop(&key)
}

/// Calls `CLruCache::len`: the number of entries.
#[verifier::external_body]
fn lru_len(c: &HtmlCache) -> (n: usize)
    ensures
        n == cache_entries(*c).len(),
{
    c.inner.len()
}

/// Calls `CLruCache::weight`: the sum of the weights of the entries.
#[verifier::external_body]
fn lru_weight(c: &HtmlCache) -> (w: usize)
    ensures
        w == total_weight(cache_entries(*c)),
{
    c.inner.weight()
}

/// Calls `CLruCache::capacity`: the limit that the store was made with.
#[verifier::external_body]
fn lru_capacity(c: &HtmlCache) -> (limit: usize)
    ensures
        limit == cache_limit(*c),
{
    c.inner.capacity()
}

/// Removing a key leaves no entry of it, and no other key is touched.
pub proof fn lemma_without_find(entries: Seq<(i64, Seq<char>)>, key: i64, other: i64)
    ensures
        find(without(entries, key), key).is_none(),
        other != key ==> find(without(entries, key), other) == find(entries, other),
        find(entries, key).is_none() ==> without(entries, key) == entries,
    decreases entries.len(),
{
    if entries.len() > 0 {
        let tail = entries.skip(1);
        lemma_without_find(tail, key, other);
        if entries[0].0 != key {
            let w = seq![entries[0]] + without(tail, key);
            assert(w.skip(1) =~= without(tail, key));
            if find(entries, key).is_none() {
                assert(w =~= entries);
            }
        }
    }
}

/// Removing a key keeps the keys distinct and never adds to the charge;
/// where the keys are distinct and the key is stored, exactly its entry
/// leaves.
pub proof fn lemma_without_cost(entries: Seq<(i64, Seq<char>)>, key: i64)
    ensures
        distinct_keys(entries) ==> distinct_keys(without(entries, key)),
        total_cost(without(entries, key)) <= total_cost(entries),
        distinct_keys(entries) ==> match find(entries, key) {
            Some(html) => total_cost(without(entries, key)) + html_weight(html) + 1 == total_cost(
                entries,
            ),
            None => without(entries, key) == entries,
        },
    decreases entries.len(),
{
    if entries.len() > 0 {
        let tail = entries.skip(1);
        lemma_without_cost(tail, key);
        lemma_without_find(tail, key, entries[0].0);
        if entries[0].0 != key {
            let w = seq![entries[0]] + without(tail, key);
            assert(w.skip(1) =~= without(tail, key));
            lemma_without_find(entries, key, key);
        } else {
            lemma_without_find(tail, key, key);
        }
    }
}

/// A prefix of entries with distinct keys has distinct keys, and stores no
/// key that the whole does not store.
pub proof fn lemma_take(entries: Seq<(i64, Seq<char>)>, n: int, key: i64)
    requires
        0 <= n <= entries.len(),
    ensures
        find(entries, key).is_none() ==> find(entries.take(n), key).is_none(),
        distinct_keys(entries) ==> distinct_keys(entries.take(n)),
    decreases entries.len(),
{
    if n > 0 {
        let tail = entries.skip(1);
        assert(entries.take(n).skip(1) =~= tail.take(n - 1));
        lemma_take(tail, n - 1, key);
        lemma_take(tail, n - 1, entries[0].0);
    }
}

/// `kept` is the length of the longest prefix that is charged no more than
/// `room`: a prefix fits if and only if it is no longer.
pub proof fn lemma_kept_longest(entries: Seq<(i64, Seq<char>)>, room: int, n: int)
    requires
        0 <= n <= entries.len(),
    ensures
        kept(entries, room) <= entries.len(),
        total_cost(entries.take(n)) <= room <==> (n <= kept(entries, room) && 0 <= room),
    decreases entries.len(),
{
    if entries.len() > 0 {
        let tail = entries.skip(1);
        let c = html_weight(entries[0].1) + 1;
        if n > 0 {
            assert(entries.take(n).skip(1) =~= tail.take(n - 1));
            lemma_kept_longest(tail, room - c, n - 1);
        } else {
            lemma_kept_longest(tail, room - c, 0);
        }
    }
}

/// Least-recently-used eviction: of the entries that a new one meets, those
/// that stay were all used more recently than those that leave, and were one
/// more to stay the limit would be passed.
pub proof fn lemma_eviction_order(
    entries: Seq<(i64, Seq<char>)>,
    limit: nat,
    key: i64,
    html: Seq<char>,
)
    requires
        fits(limit, html),
    ensures
        ({
            let rest = without(entries, key);
            let n = kept(rest, limit - (html_weight(html) + 1));
            &&& n <= rest.len()
            &&& stored(entries, limit, key, html) == seq![(key, html)] + rest.take(n as int)
            &&& total_cost(stored(entries, limit, key, html)) <= limit
            &&& n < rest.len() ==> html_weight(html) + 1 + total_cost(rest.take(n as int + 1)) > limit
        }),
{
    let rest = without(entries, key);
    let room = limit - (html_weight(html) + 1);
    let n = kept(rest, room);
    lemma_kept_longest(rest, room, 0);
    lemma_kept_longest(rest, room, n as int);
    if n < rest.len() {
        lemma_kept_longest(rest, room, n as int + 1);
    }
    let s = seq![(key, html)] + rest.take(n as int);
    assert(s.skip(1) =~= rest.take(n as int));
}

/// A key that was invalidated is not found, whatever was stored before.
pub proof fn lemma_invalidate_then_miss(entries: Seq<(i64, Seq<char>)>, key: i64)
    ensures
        find(touched(without(entries, key), key), key).is_none(),
        touched(without(entries, key), key) == without(entries, key),
{
    lemma_without_find(entries, key, key);
}

/// Storing keeps the keys distinct and the charge within the limit.
pub proof fn lemma_stored_bounded(
    entries: Seq<(i64, Seq<char>)>,
    limit: nat,
    key: i64,
    html: Seq<char>,
)
    requires
        distinct_keys(entries),
        total_cost(entries) <= limit,
    ensures
        distinct_keys(stored(entries, limit, key, html)),
        total_cost(stored(entries, limit, key, html)) <= limit,
        fits(limit, html) ==> find(stored(entries, limit, key, html), key) == Some(html),
        !fits(limit, html) ==> find(stored(entries, limit, key, html), key).is_none(),
{
    let rest = without(entries, key);
    lemma_without_cost(entries, key);
    lemma_without_find(entries, key, key);
    if fits(limit, html) {
        lemma_eviction_order(entries, limit, key, html);
        let n = kept(rest, limit - (html_weight(html) + 1));
        lemma_take(rest, n as int, key);
        let s = seq![(key, html)] + rest.take(n as int);
        assert(s.skip(1) =~= rest.take(n as int));
    }
}

/// Whatever is put into an empty cache, in whatever order, the entries are
/// never charged more than the limit, and no key is stored twice.
pub proof fn lemma_puts_bounded(limit: nat, puts: Seq<(i64, Seq<char>)>)
    ensures
        distinct_keys(after_puts(limit, puts)),
        total_cost(after_puts(limit, puts)) <= limit,
    decreases puts.len(),
{
    if puts.len() > 0 {
        lemma_puts_bounded(limit, puts.drop_last());
        lemma_stored_bounded(
            after_puts(limit, puts.drop_last()),
            limit,
            puts.last().0,
            puts.last().1,
        );
    }
}

/// A read keeps the keys distinct and the charge as it was.
pub proof fn lemma_touched_bounded(entries: Seq<(i64, Seq<char>)>, key: i64)
    requires
        distinct_keys(entries),
    ensures
        distinct_keys(touched(entries, key)),
        total_cost(touched(entries, key)) == total_cost(entries),
        find(touched(entries, key), key) == find(entries, key),
{
    lemma_without_cost(entries, key);
    lemma_without_find(entries, key, key);
    match find(entries, key) {
        Some(html) => {
            let s = seq![(key, html)] + without(entries, key);
            assert(s.skip(1) =~= without(entries, key));
        },
        None => {},
    }
}

impl HtmlCache {
    /// The entries, most recently used first.
    pub closed spec fn view(&self) -> Seq<(i64, Seq<char>)> {
        cache_entries(*self)
    }

    /// The limit on what the entries are charged together.
    pub closed spec fn limit(&self) -> nat {
        cache_limit(*self)
    }

    /// No key is stored twice, and the entries are charged no more than the
    /// limit.
    pub open spec fn wf(&self) -> bool {
        &&& distinct_keys(self@)
        &&& total_cost(self@) <= self.limit()
        &&& 0 < self.limit()
        &&& 2 * self.limit() <= usize::MAX
    }

    /// The rendering of a key, if it is stored. The read makes its entry the
    /// most recently used.
    pub fn get(&mut self, key: i64) -> (found: Option<String>)
        requires
            old(self).wf(),
        ensures
            final(self).wf(),
            final(self).limit() == old(self).limit(),
            final(self)@ == touched(old(self)@, key),
            match found {
                Some(html) => find(old(self)@, key) == Some(html@),
                None => find(old(self)@, key).is_none(),
            },
    {
        proof {
            lemma_touched_bounded(self@, key);
        }
        lru_get(self, key)
    }

    /// Stores a rendering under a key, in place of an earlier one. The least
    /// recently used entries leave until the charge is within the limit; a
    /// rendering that cannot fit alone is dropped, and the key is then not
    /// stored at all.
    pub fn put(&mut self, key: i64, html: String)
        requires
            old(self).wf(),
        ensures
            final(self).wf(),
            final(self).limit() == old(self).limit(),
            final(self)@ == stored(old(self)@, old(self).limit(), key, html@),
            total_cost(final(self)@) <= final(self).limit(),
            find(final(self)@, key) == (if fits(old(self).limit(), html@) {
                Some(html@)
            } else {
                None::<Seq<char>>
            }),
    {
        proof {
            lemma_stored_bounded(self@, self.limit(), key, html@);
        }
        let taken = lru_put(self, key, html);
        if !taken {
            let _ = lru_pop(self, key);
        }
    }

    /// Removes the entry of a key, if there is one: the key is not found
    /// afterwards, and the other entries stay as they are.
    pub fn invalidate(&mut self, key: i64)
        requires
            old(self).wf(),
        ensures
            final(self).wf(),
            final(self).limit() == old(self).limit(),
            final(self)@ == without(old(self)@, key),
            find(final(self)@, key).is_none(),
    {
        proof {
            lemma_without_cost(self@, key);
            lemma_without_find(self@, key, key);
        }
        let _ = lru_pop(self, key);
    }

    /// The number of entries.
    pub fn len(&self) -> (n: usize)
        ensures
            n == self@.len(),
    {
        lru_len(self)
    }

    /// What the entries are charged together.
    pub fn weight(&self) -> (w: usize)
        requires
            self.wf(),
        ensures
            w == total_cost(self@),
            w <= self.limit(),
    {
        lru_len(self) + lru_weight(self)
    }

    /// The limit of the cache.
    pub fn capacity(&self) -> (limit: usize)
        ensures
            limit == self.limit(),
    {
        lru_capacity(self)
    }
}

/// An empty cache under the limit of the configuration.
pub fn create_cache(config: &Config) -> (cache: HtmlCache)
    requires
        config.valid(),
    ensures
        cache.wf(),
        cache@ == Seq::<(i64, Seq<char>)>::empty(),
        cache.limit() == config.cache_limit,
{
    lru_new(config.cache_limit)
}

} // verus!
