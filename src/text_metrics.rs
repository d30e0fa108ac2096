use lru::LruCache;
use vstd::prelude::*;

verus! {

/// A cache key: the text and its font size quantized to tenths of a pixel.
pub type CacheKey = (String, i32);

/// What a key stands for in contracts.
pub type KeyModel = (Seq<char>, i32);

/// The `LruCache` of the lru crate, opaque to proofs: `lru_entries` and
/// `lru_capacity` name what it holds.
#[verifier::external_type_specification]
#[verifier::external_body]
#[verifier::reject_recursive_types(K)]
#[verifier::reject_recursive_types(V)]
#[verifier::reject_recursive_types(S)]
pub struct ExLruCache<K, V, S>(LruCache<K, V, S>);

/// The hasher that `LruCache` uses unless told otherwise, opaque to proofs.
#[verifier::external_type_specification]
#[verifier::external_body]
pub struct ExLruHasher(lru::DefaultHasher);

/// The entries of an LRU cache, most recently used first.
pub uninterp spec fn lru_entries(c: LruCache<CacheKey, u32>) -> Seq<(KeyModel, u32)>;

/// The capacity an LRU cache was created with.
pub uninterp spec fn lru_capacity(c: LruCache<CacheKey, u32>) -> nat;

pub open spec fn has_key(es: Seq<(KeyModel, u32)>, k: KeyModel) -> bool {
    exists|i: int| 0 <= i < es.len() && (#[trigger] es[i]).0 == k
}

pub open spec fn key_pos(es: Seq<(KeyModel, u32)>, k: KeyModel) -> int {
    choose|i: int| 0 <= i < es.len() && (#[trigger] es[i]).0 == k
}

/// No key occurs twice.
pub open spec fn keys_distinct(es: Seq<(KeyModel, u32)>) -> bool {
    forall|i: int, j: int|
        0 <= i < es.len() && 0 <= j < es.len() && i != j ==> (#[trigger] es[i]).0 != (#[trigger] es[j]).0
}

/// The entries after a lookup of `k`: a present key moves to the front.
pub open spec fn after_get(es: Seq<(KeyModel, u32)>, k: KeyModel) -> Seq<(KeyModel, u32)> {
    if has_key(es, k) {
        seq![es[key_pos(es, k)]] + es.remove(key_pos(es, k))
    } else {
        es
    }
}

/// The entries after storing `v` under `k`: a present key is updated and moved to
/// the front; otherwise the new entry goes to the front, and when the cache is
/// full the least recently used entry (the last) is dropped.
pub open spec fn after_put(es: Seq<(KeyModel, u32)>, cap: nat, k: KeyModel, v: u32) -> Seq<(KeyModel, u32)> {
    if has_key(es, k) {
        seq![(k, v)] + es.remove(key_pos(es, k))
    } else if es.len() == cap {
        seq![(k, v)] + es.drop_last()
    } else {
        seq![(k, v)] + es
    }
}

/// Relies on `LruCache::new`: an empty cache holding at most `cap` entries.
#[verifier::external_body]
fn lru_new(cap: usize) -> (r: LruCache<CacheKey, u32>)
    requires
        cap > 0,
    ensures
        lru_entries(r) == Seq::<(KeyModel, u32)>::empty(),
        lru_capacity(r) == cap as nat,
{
    LruCache::new(std::num::NonZeroUsize::new(cap).unwrap())
}

/// Relies on `LruCache::get`: the value under `k` if present, which then becomes
/// the most recently used entry.
#[verifier::external_body]
fn lru_get(c: &mut LruCache<CacheKey, u32>, k: &CacheKey) -> (r: Option<u32>)
    ensures
        lru_capacity(*final(c)) == lru_capacity(*old(c)),
        lru_entries(*final(c)) == after_get(lru_entries(*old(c)), k@),
        has_key(lru_entries(*old(c)), k@) ==> r == Some(
            lru_entries(*old(c))[key_pos(lru_entries(*old(c)), k@)].1,
        ),
        !has_key(lru_entries(*old(c)), k@) ==> r is None,
{
    c.get(k).copied()
}

/// Relies on `LruCache::put`: stores `v` under `k` as the most recently used
/// entry, dropping the least recently used one when a new key meets a full cache.
#[verifier::external_body]
fn lru_put(c: &mut LruCache<CacheKey, u32>, k: CacheKey, v: u32)
    ensures
        lru_capacity(*final(c)) == lru_capacity(*old(c)),
        lru_entries(*final(c)) == after_put(lru_entries(*old(c)), lru_capacity(*old(c)), k@, v),
{
    c.put(k, v);
}

/// The capacity of a cache made with `TextMetricsCache::with_default_capacity`.
pub const DEFAULT_CAPACITY: usize = 1024;

/// A bounded, least-recently-used memo of text widths, keyed by the text and its
/// font size bucket. Widths are held in their 32-bit encoding.
pub struct TextMetricsCache {
    cache: LruCache<CacheKey, u32>,
}

impl View for TextMetricsCache {
    type V = Seq<(KeyModel, u32)>;

    /// The cached entries, most recently used first.
    closed spec fn view(&self) -> Seq<(KeyModel, u32)> {
        lru_entries(self.cache)
    }
}

impl TextMetricsCache {
    pub closed spec fn capacity(&self) -> nat {
        lru_capacity(self.cache)
    }

    pub open spec fn wf(&self) -> bool {
        &&& self.capacity() > 0
        &&& self@.len() <= self.capacity()
        &&& keys_distinct(self@)
    }

    /// An empty cache that holds at most `capacity` widths.
    pub fn new(capacity: usize) -> (r: TextMetricsCache)
        requires
            capacity > 0,
        ensures
            r.wf(),
            r@ == Seq::<(KeyModel, u32)>::empty(),
            r.capacity() == capacity as nat,
    {
        TextMetricsCache { cache: lru_new(capacity) }
    }

    /// An empty cache of `DEFAULT_CAPACITY` entries.
    pub fn with_default_capacity() -> (r: TextMetricsCache)
        ensures
            r.wf(),
            r@ == Seq::<(KeyModel, u32)>::empty(),
            r.capacity() == DEFAULT_CAPACITY as nat,
    {
        TextMetricsCache::new(DEFAULT_CAPACITY)
    }

    /// The width of `text` at `size_bucket`: the cached one if present, which then
    /// becomes the most recently used entry; otherwise `measure` is called once and
    /// its result is stored, evicting the least recently used entry from a full cache.
    pub fn get_or_measure<F: FnOnce() -> u32>(&mut self, text: &str, size_bucket: i32, measure: F) -> (width: u32)
        requires
            old(self).wf(),
            measure.requires(()),
        ensures
            final(self).wf(),
            final(self).capacity() == old(self).capacity(),
            has_key(old(self)@, (text@, size_bucket)) ==> {
                &&& width == old(self)@[key_pos(old(self)@, (text@, size_bucket))].1
                &&& final(self)@ == after_get(old(self)@, (text@, size_bucket))
            },
            !has_key(old(self)@, (text@, size_bucket)) ==> {
                &&& measure.ensures((), width)
                &&& final(self)@ == after_put(old(self)@, old(self).capacity(), (text@, size_bucket), width)
            },
    {
        let key: CacheKey = (text.to_owned(), size_bucket);
        proof {
            lemma_get_keeps_wf(self@, self.capacity(), key@);
        }
        match lru_get(&mut self.cache, &key) {
            Some(width) => width,
            None => {
                let width = measure();
                proof {
                    lemma_put_keeps_wf(self@, self.capacity(), key@, width);
                }
                lru_put(&mut self.cache, key, width);
                width
            },
        }
    }
}

proof fn lemma_get_keeps_wf(es: Seq<(KeyModel, u32)>, cap: nat, k: KeyModel)
    requires
        es.len() <= cap,
        keys_distinct(es),
    ensures
        after_get(es, k).len() <= cap,
        keys_distinct(after_get(es, k)),
{
    if has_key(es, k) {
        let p = key_pos(es, k);
        let r = after_get(es, k);
        assert forall|i: int, j: int| 0 <= i < r.len() && 0 <= j < r.len() && i != j implies
            (#[trigger] r[i]).0 != (#[trigger] r[j]).0 by {
            let oi = if i == 0 { p } else if i - 1 < p { i - 1 } else { i };
            let oj = if j == 0 { p } else if j - 1 < p { j - 1 } else { j };
            assert(r[i] == es[oi]);
            assert(r[j] == es[oj]);
        }
    }
}

proof fn lemma_put_keeps_wf(es: Seq<(KeyModel, u32)>, cap: nat, k: KeyModel, v: u32)
    requires
        cap > 0,
        es.len() <= cap,
        keys_distinct(es),
    ensures
        after_put(es, cap, k, v).len() <= cap,
        keys_distinct(after_put(es, cap, k, v)),
        after_put(es, cap, k, v)[0] == (k, v),
{
    let r = after_put(es, cap, k, v);
    if has_key(es, k) {
        let p = key_pos(es, k);
        assert forall|i: int, j: int| 0 <= i < r.len() && 0 <= j < r.len() && i != j implies
            (#[trigger] r[i]).0 != (#[trigger] r[j]).0 by {
            if i > 0 {
                let oi = if i - 1 < p { i - 1 } else { i };
                assert(r[i] == es[oi]);
            }
            if j > 0 {
                let oj = if j - 1 < p { j - 1 } else { j };
                assert(r[j] == es[oj]);
            }
        }
    } else {
        let rest = if es.len() == cap { es.drop_last() } else { es };
        assert(r == seq![(k, v)] + rest);
        assert forall|i: int, j: int| 0 <= i < r.len() && 0 <= j < r.len() && i != j implies
            (#[trigger] r[i]).0 != (#[trigger] r[j]).0 by {
            if i > 0 {
                assert(r[i] == es[i - 1]);
            }
            if j > 0 {
                assert(r[j] == es[j - 1]);
            }
        }
    }
}

/// Storing a new key in a full cache drops exactly the least recently used entry:
/// the size stays at capacity, the last entry's key is gone, and every other entry
/// stays, one place further back.
pub proof fn lemma_full_cache_evicts_least_recent(
    es: Seq<(KeyModel, u32)>,
    cap: nat,
    k: KeyModel,
    v: u32,
)
    requires
        cap > 0,
        es.len() == cap,
        keys_distinct(es),
        !has_key(es, k),
    ensures
        after_put(es, cap, k, v).len() == cap,
        after_put(es, cap, k, v)[0] == (k, v),
        !has_key(after_put(es, cap, k, v), es.last().0),
        forall|i: int| 0 <= i < cap - 1 ==> #[trigger] after_put(es, cap, k, v)[i + 1] == es[i],
{
    let r = after_put(es, cap, k, v);
    assert(r == seq![(k, v)] + es.drop_last());
    assert forall|i: int| 0 <= i < r.len() implies (#[trigger] r[i]).0 != es.last().0 by {
        if i > 0 {
            assert(r[i] == es[i - 1]);
            assert(es[i - 1].0 != es[es.len() - 1].0);
        } else {
            assert(es[es.len() - 1].0 != k);
        }
    }
}

/// Looking a key up protects it: when the next new key arrives at a full cache, the
/// key that was just looked up stays.
pub proof fn lemma_lookup_protects_from_eviction(
    es: Seq<(KeyModel, u32)>,
    cap: nat,
    k: KeyModel,
    fresh: KeyModel,
    v: u32,
)
    requires
        cap >= 2,
        es.len() == cap,
        keys_distinct(es),
        has_key(es, k),
        !has_key(es, fresh),
    ensures
        has_key(after_put(after_get(es, k), cap, fresh, v), k),
{
    let g = after_get(es, k);
    lemma_get_keeps_wf(es, cap, k);
    assert(g[0].0 == k);
    assert(g.len() == cap);
    assert(!has_key(g, fresh)) by {
        if has_key(g, fresh) {
            let j = key_pos(g, fresh);
            let p = key_pos(es, k);
            let oj = if j == 0 { p } else if j - 1 < p { j - 1 } else { j };
            assert(g[j] == es[oj]);
        }
    }
    let r = after_put(g, cap, fresh, v);
    assert(r == seq![(fresh, v)] + g.drop_last());
    assert(r[1] == g[0]);
}

/// After a width is measured and stored under a key, the key is present with that
/// width, so the next lookup of the key is answered without measuring again.
pub proof fn lemma_measured_width_is_cached(es: Seq<(KeyModel, u32)>, cap: nat, k: KeyModel, v: u32)
    requires
        cap > 0,
        es.len() <= cap,
        keys_distinct(es),
    ensures
        has_key(after_put(es, cap, k, v), k),
        after_put(es, cap, k, v)[key_pos(after_put(es, cap, k, v), k)].1 == v,
{
    lemma_put_keeps_wf(es, cap, k, v);
    let r = after_put(es, cap, k, v);
    assert(r[0].0 == k);
    let p = key_pos(r, k);
    if p != 0 {
        assert(r[p].0 != r[0].0);
    }
}

} // verus!
