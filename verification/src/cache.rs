//! In-memory caches with time-to-live expiry and least-recently-used eviction.
//!
//! Timestamps are microseconds since the Unix epoch. Every cache operation
//! that depends on the time takes it as an argument (`now`); the multi-level
//! [`Cache`] reads the clock once per operation and hands the reading down.

use vstd::prelude::*;
use crate::assoc::{assoc_map, lemma_assoc_all, lemma_assoc_len, lemma_assoc_push, lemma_assoc_remove, lemma_assoc_update};
use crate::bytes::copy_bytes;
use crate::clock::{duration_as_micros, duration_from_secs, duration_micros, duration_of_secs, utc_now_micros};

verus! {

// ---------------------------------------------------------------------------
// Keys, values and entries
// ---------------------------------------------------------------------------

/// A key that can be compared and copied with its abstract value kept.
pub trait CacheKey: View + Sized {
    fn same_key(&self, other: &Self) -> (b: bool)
        ensures
            b == (self@ == other@),
    ;

    fn copy_key(&self) -> (r: Self)
        ensures
            r@ == self@,
    ;
}

impl CacheKey for u128 {
    fn same_key(&self, other: &Self) -> (b: bool) {
        *self == *other
    }

    fn copy_key(&self) -> (r: Self) {
        *self
    }
}

impl CacheKey for String {
    fn same_key(&self, other: &Self) -> (b: bool) {
        *self == *other
    }

    fn copy_key(&self) -> (r: Self) {
        self.clone()
    }
}

/// A value that a cache hands out as a copy equal to the stored one.
pub trait CacheValue: View + Sized {
    fn duplicate(&self) -> (r: Self)
        ensures
            r@ == self@,
    ;
}

impl CacheValue for Vec<u8> {
    fn duplicate(&self) -> (r: Self) {
        copy_bytes(self.as_slice())
    }
}

/// Expiry and usage bookkeeping of one cache entry.
#[derive(Clone, Copy, Debug)]
pub struct EntryMeta {
    /// When the entry stops being served (microseconds since the epoch).
    pub expires_at: i64,
    /// How many times the entry was read.
    pub access_count: u64,
    /// When the entry was last written or read.
    pub last_accessed: i64,
}

/// An entry is expired once the clock has passed its expiry time.
pub open spec fn is_expired(meta: EntryMeta, now: i64) -> bool {
    now > meta.expires_at
}

/// `now + ttl`, held within the range of `i64`.
pub open spec fn expiry_after(now: i64, ttl: i64) -> i64 {
    if now + ttl > i64::MAX {
        i64::MAX
    } else if now + ttl < i64::MIN {
        i64::MIN
    } else {
        (now + ttl) as i64
    }
}

/// The bookkeeping of an entry written at `now` that lives for `ttl`.
pub open spec fn fresh_meta(now: i64, ttl: i64) -> EntryMeta {
    EntryMeta { expires_at: expiry_after(now, ttl), access_count: 0, last_accessed: now }
}

/// The bookkeeping of an entry after a read at `now` (the counter wraps).
pub open spec fn touched(meta: EntryMeta, now: i64) -> EntryMeta {
    EntryMeta {
        expires_at: meta.expires_at,
        access_count: if meta.access_count == u64::MAX {
            0
        } else {
            (meta.access_count + 1) as u64
        },
        last_accessed: now,
    }
}

/// The entries that a sweep at `now` keeps: those whose expiry lies after `now`.
pub open spec fn live_entries<KV, W>(m: Map<KV, (W, EntryMeta)>, now: i64) -> Map<
    KV,
    (W, EntryMeta),
> {
    Map::new(|k: KV| m.dom().contains(k) && m[k].1.expires_at > now, |k: KV| m[k])
}

/// The contents after a read of `k` at `now`: an expired entry is dropped,
/// a live one is marked as accessed.
pub open spec fn get_state<KV, W>(m: Map<KV, (W, EntryMeta)>, k: KV, now: i64) -> Map<
    KV,
    (W, EntryMeta),
> {
    if m.dom().contains(k) {
        if is_expired(m[k].1, now) {
            m.remove(k)
        } else {
            m.insert(k, (m[k].0, touched(m[k].1, now)))
        }
    } else {
        m
    }
}

/// What a read of `k` at `now` returns.
pub open spec fn get_result<KV, W>(m: Map<KV, (W, EntryMeta)>, k: KV, now: i64) -> Option<W> {
    if m.dom().contains(k) && !is_expired(m[k].1, now) {
        Some(m[k].0)
    } else {
        None
    }
}

/// `k` is a least recently used key of `m`.
pub open spec fn is_lru_key<KV, W>(m: Map<KV, (W, EntryMeta)>, k: KV) -> bool {
    &&& m.dom().contains(k)
    &&& forall|j: KV| #[trigger] m.dom().contains(j) ==> m[k].1.last_accessed <= m[j].1.last_accessed
}

/// `after` is what a write of `k` ↦ `w` at `now` with lifetime `ttl` makes of
/// `before` in a cache of capacity `cap`: expired entries are swept, then, if
/// the cache is still full, one least recently used entry leaves, and the new
/// entry is stored.
pub open spec fn put_outcome<KV, W>(
    before: Map<KV, (W, EntryMeta)>,
    after: Map<KV, (W, EntryMeta)>,
    cap: nat,
    k: KV,
    w: W,
    now: i64,
    ttl: i64,
) -> bool {
    let live = live_entries(before, now);
    let entry = (w, fresh_meta(now, ttl));
    if live.len() >= cap && live.len() > 0 {
        exists|v: KV| is_lru_key(live, v) && after == live.remove(v).insert(k, entry)
    } else {
        after == live.insert(k, entry)
    }
}

/// The view of an optional value.
pub open spec fn opt_view<V: View>(o: Option<V>) -> Option<V::V> {
    match o {
        Some(v) => Some(v@),
        None => None,
    }
}

// ---------------------------------------------------------------------------
// The LRU cache
// ---------------------------------------------------------------------------

/// A bounded map from keys to values whose entries expire, and whose least
/// recently used entry makes room when a write finds it full.
pub struct LruCache<K, V> {
    keys: Vec<K>,
    vals: Vec<V>,
    metas: Vec<EntryMeta>,
    max_size: usize,
}

impl<K: CacheKey, V: CacheValue> LruCache<K, V> {
    pub closed spec fn key_seq(&self) -> Seq<K::V> {
        Seq::new(self.keys@.len(), |i: int| self.keys@[i]@)
    }

    pub closed spec fn slot_seq(&self) -> Seq<(V::V, EntryMeta)> {
        Seq::new(self.vals@.len(), |i: int| (self.vals@[i]@, self.metas@[i]))
    }

    /// The entries, each with its value and bookkeeping.
    pub closed spec fn entries(&self) -> Map<K::V, (V::V, EntryMeta)> {
        assoc_map(self.key_seq(), self.slot_seq())
    }

    /// The most entries the cache keeps (at least one entry is always kept).
    pub closed spec fn capacity(&self) -> nat {
        self.max_size as nat
    }

    /// The internal invariant: aligned columns, distinct keys, and no more
    /// entries than the capacity allows.
    pub closed spec fn wf(&self) -> bool {
        &&& self.keys@.len() == self.vals@.len()
        &&& self.keys@.len() == self.metas@.len()
        &&& self.key_seq().no_duplicates()
        &&& self.keys@.len() <= if self.max_size == 0 {
            1
        } else {
            self.max_size as int
        }
    }

    proof fn lemma_view(&self)
        requires
            self.wf(),
        ensures
            self.entries().dom().finite(),
            self.entries().len() == self.keys@.len(),
            forall|i: int|
                0 <= i < self.keys@.len() ==> #[trigger] self.entries().dom().contains(
                    self.keys@[i]@,
                ) && self.entries()[self.keys@[i]@] == (self.vals@[i]@, self.metas@[i]),
            forall|k: K::V|
                #[trigger] self.entries().dom().contains(k) ==> exists|i: int|
                    0 <= i < self.keys@.len() && self.keys@[i]@ == k,
    {
        lemma_assoc_len(self.key_seq(), self.slot_seq());
        lemma_assoc_all(self.key_seq(), self.slot_seq());
        assert forall|i: int| 0 <= i < self.keys@.len() implies #[trigger] self.entries().dom().contains(
            self.keys@[i]@,
        ) && self.entries()[self.keys@[i]@] == (self.vals@[i]@, self.metas@[i]) by {
            assert(self.key_seq()[i] == self.keys@[i]@);
        }
        assert forall|k: K::V| #[trigger] self.entries().dom().contains(k) implies exists|i: int|
            0 <= i < self.keys@.len() && self.keys@[i]@ == k by {
            let i = choose|i: int| 0 <= i < self.key_seq().len() && self.key_seq()[i] == k;
            assert(self.keys@[i]@ == k);
        }
    }

    /// An empty cache that keeps at most `max_size` entries.
    pub fn new(max_size: usize) -> (c: Self)
        ensures
            c.wf(),
            c.entries() == Map::<K::V, (V::V, EntryMeta)>::empty(),
            c.capacity() == max_size,
    {
        let c = LruCache { keys: Vec::new(), vals: Vec::new(), metas: Vec::new(), max_size };
        assert(c.entries() =~= Map::<K::V, (V::V, EntryMeta)>::empty());
        c
    }

    /// The position of `key`, if it is stored.
    fn find(&self, key: &K) -> (r: Option<usize>)
        requires
            self.wf(),
        ensures
            match r {
                Some(i) => i < self.keys@.len() && self.keys@[i as int]@ == key@,
                None => !self.entries().dom().contains(key@),
            },
    {
        proof {
            self.lemma_view();
        }
        let mut i: usize = 0;
        while i < self.keys.len()
            invariant
                self.wf(),
                i <= self.keys@.len(),
                forall|j: int| 0 <= j < i ==> self.keys@[j]@ != key@,
            decreases self.keys@.len() - i,
        {
            if self.keys[i].same_key(key) {
                return Some(i);
            }
            i = i + 1;
        }
        None
    }

    /// Removes the entry at position `i`.
    fn remove_at(&mut self, i: usize)
        requires
            old(self).wf(),
            i < old(self).keys@.len(),
        ensures
            final(self).wf(),
            final(self).max_size == old(self).max_size,
            final(self).keys@.len() == old(self).keys@.len() - 1,
            final(self).metas@ == old(self).metas@.remove(i as int),
            final(self).entries() == old(self).entries().remove(old(self).keys@[i as int]@),
    {
        let ghost ks = self.key_seq();
        let ghost ss = self.slot_seq();
        proof {
            lemma_assoc_remove(ks, ss, i as int);
        }
        self.keys.remove(i);
        self.vals.remove(i);
        self.metas.remove(i);
        assert(self.key_seq() =~= ks.remove(i as int));
        assert(self.slot_seq() =~= ss.remove(i as int));
    }

    /// Reads `key` at time `now`. An expired entry is dropped and not
    /// returned; a live one is marked as accessed and a copy is returned.
    pub fn get(&mut self, key: &K, now: i64) -> (r: Option<V>)
        requires
            old(self).wf(),
        ensures
            final(self).wf(),
            final(self).capacity() == old(self).capacity(),
            final(self).entries() == get_state(old(self).entries(), key@, now),
            opt_view(r) == get_result(old(self).entries(), key@, now),
    {
        proof {
            self.lemma_view();
        }
        match self.find(key) {
            None => None,
            Some(i) => {
                let meta = self.metas[i];
                if now > meta.expires_at {
                    self.remove_at(i);
                    None
                } else {
                    let count: u64 = if meta.access_count == u64::MAX {
                        0
                    } else {
                        meta.access_count + 1
                    };
                    let new_meta = EntryMeta {
                        expires_at: meta.expires_at,
                        access_count: count,
                        last_accessed: now,
                    };
                    let ghost ks = self.key_seq();
                    let ghost ss = self.slot_seq();
                    proof {
                        lemma_assoc_update(ks, ss, i as int, (self.vals@[i as int]@, new_meta));
                    }
                    self.metas.set(i, new_meta);
                    assert(self.key_seq() =~= ks);
                    assert(self.slot_seq() =~= ss.update(i as int, (self.vals@[i as int]@, new_meta)));
                    Some(self.vals[i].duplicate())
                }
            },
        }
    }

    /// Drops `key`'s entry, if any.
    pub fn invalidate(&mut self, key: &K)
        requires
            old(self).wf(),
        ensures
            final(self).wf(),
            final(self).capacity() == old(self).capacity(),
            final(self).entries() == old(self).entries().remove(key@),
    {
        proof {
            self.lemma_view();
        }
        match self.find(key) {
            None => {
                assert(self.entries().remove(key@) =~= self.entries());
            },
            Some(i) => {
                self.remove_at(i);
            },
        }
    }

    /// Drops every entry.
    pub fn clear(&mut self)
        requires
            old(self).wf(),
        ensures
            final(self).wf(),
            final(self).capacity() == old(self).capacity(),
            final(self).entries() == Map::<K::V, (V::V, EntryMeta)>::empty(),
    {
        self.keys = Vec::new();
        self.vals = Vec::new();
        self.metas = Vec::new();
        assert(self.entries() =~= Map::<K::V, (V::V, EntryMeta)>::empty());
    }

    /// The number of entries, expired ones included.
    pub fn size(&self) -> (n: usize)
        requires
            self.wf(),
        ensures
            n == self.entries().len(),
    {
        proof {
            self.lemma_view();
        }
        self.keys.len()
    }

    /// Drops every entry whose expiry is not after `now`.
    pub fn evict_expired(&mut self, now: i64)
        requires
            old(self).wf(),
        ensures
            final(self).wf(),
            final(self).capacity() == old(self).capacity(),
            final(self).entries() == live_entries(old(self).entries(), now),
    {
        let ghost m0 = self.entries();
        let mut i: usize = 0;
        while i < self.keys.len()
            invariant
                self.wf(),
                self.max_size == old(self).max_size,
                i <= self.keys@.len(),
                forall|j: int| 0 <= j < i ==> self.metas@[j].expires_at > now,
                live_entries(self.entries(), now) == live_entries(m0, now),
            decreases self.keys@.len() - i,
        {
            if self.metas[i].expires_at > now {
                i = i + 1;
            } else {
                let ghost before = self.entries();
                proof {
                    self.lemma_view();
                }
                let ghost k = self.keys@[i as int]@;
                self.remove_at(i);
                proof {
                    lemma_live_remove_dead(before, k, now);
                }
            }
        }
        proof {
            self.lemma_view();
            assert(live_entries(self.entries(), now) =~= self.entries());
        }
    }

    /// Drops one entry with the oldest access time, if there is any entry.
    fn evict_lru(&mut self)
        requires
            old(self).wf(),
        ensures
            final(self).wf(),
            final(self).max_size == old(self).max_size,
            old(self).entries().len() == 0 ==> final(self).entries() == old(self).entries(),
            old(self).entries().len() > 0 ==> exists|v: K::V|
                is_lru_key(old(self).entries(), v) && final(self).entries() == old(
                    self,
                ).entries().remove(v),
    {
        proof {
            self.lemma_view();
        }
        if self.keys.len() == 0 {
            return;
        }
        let mut best: usize = 0;
        let mut i: usize = 1;
        while i < self.keys.len()
            invariant
                self.wf(),
                best < self.keys@.len(),
                1 <= i <= self.keys@.len(),
                forall|j: int|
                    0 <= j < i ==> self.metas@[best as int].last_accessed
                        <= self.metas@[j].last_accessed,
            decreases self.keys@.len() - i,
        {
            if self.metas[i].last_accessed < self.metas[best].last_accessed {
                best = i;
            }
            i = i + 1;
        }
        let ghost m = self.entries();
        let ghost v = self.keys@[best as int]@;
        proof {
            self.lemma_view();
            assert(self.entries().dom().contains(self.keys@[best as int]@));
            assert(m[self.keys@[best as int]@] == (self.vals@[best as int]@, self.metas@[best as int]));
            assert forall|j: K::V| #[trigger] m.dom().contains(j) implies m[v].1.last_accessed
                <= m[j].1.last_accessed by {
                let idx = choose|idx: int| 0 <= idx < self.keys@.len() && self.keys@[idx]@ == j;
                assert(m[self.keys@[idx]@] == (self.vals@[idx]@, self.metas@[idx]));
            }
            assert(is_lru_key(m, v));
        }
        self.remove_at(best);
    }

    /// Writes `key` ↦ `value` at time `now`, to live for `ttl` microseconds.
    /// Expired entries are swept first; if the cache is still full, a least
    /// recently used entry makes room.
    pub fn put(&mut self, key: K, value: V, ttl: i64, now: i64)
        requires
            old(self).wf(),
        ensures
            final(self).wf(),
            final(self).capacity() == old(self).capacity(),
            put_outcome(old(self).entries(), final(self).entries(), old(self).capacity(), key@, value@, now, ttl),
    {
        let ghost before = self.entries();
        let ghost live = live_entries(before, now);
        self.evict_expired(now);
        proof {
            self.lemma_view();
        }
        let ghost swept = self.entries();
        if self.keys.len() >= self.max_size {
            self.evict_lru();
        }
        let ghost kept = self.entries();
        proof {
            self.lemma_view();
        }
        let expires_at: i64 = match now.checked_add(ttl) {
            Some(t) => t,
            None => if ttl > 0 {
                i64::MAX
            } else {
                i64::MIN
            },
        };
        let meta = EntryMeta { expires_at, access_count: 0, last_accessed: now };
        assert(meta == fresh_meta(now, ttl));
        let ghost entry = (value@, meta);
        let ghost ks = self.key_seq();
        let ghost ss = self.slot_seq();
        proof {
            lemma_assoc_len(ks, ss);
        }
        match self.find(&key) {
            Some(i) => {
                proof {
                    lemma_assoc_update(ks, ss, i as int, entry);
                }
                self.vals.set(i, value);
                self.metas.set(i, meta);
                assert(self.key_seq() =~= ks);
                assert(self.slot_seq() =~= ss.update(i as int, entry));
            },
            None => {
                assert(!ks.contains(key@));
                proof {
                    lemma_assoc_push(ks, ss, key@, entry);
                }
                self.keys.push(key);
                self.vals.push(value);
                self.metas.push(meta);
                assert(self.key_seq() =~= ks.push(key@));
                assert(self.slot_seq() =~= ss.push(entry));
            },
        }
        proof {
            assert(self.entries() == kept.insert(key@, entry));
            if live.len() >= self.max_size && live.len() > 0 {
                let v = choose|v: K::V| is_lru_key(swept, v) && kept == swept.remove(v);
                assert(is_lru_key(live, v) && self.entries() == live.remove(v).insert(key@, entry));
            }
        }
    }
}

proof fn lemma_live_remove_dead<KV, W>(m: Map<KV, (W, EntryMeta)>, k: KV, now: i64)
    requires
        m.dom().contains(k) ==> !(m[k].1.expires_at > now),
    ensures
        live_entries(m.remove(k), now) == live_entries(m, now),
{
    assert(live_entries(m.remove(k), now) =~= live_entries(m, now));
}

/// The sum of the access counters of the entries of `m`.
pub open spec fn access_sum<KV, W>(m: Map<KV, (W, EntryMeta)>) -> nat
    decreases m.dom().len(),
    when m.dom().finite()
{
    if m.dom().len() == 0 {
        0
    } else {
        let k = m.dom().choose();
        (m[k].1.access_count + access_sum(m.remove(k))) as nat
    }
}

proof fn lemma_access_sum_remove<KV, W>(m: Map<KV, (W, EntryMeta)>, k: KV)
    requires
        m.dom().finite(),
        m.dom().contains(k),
    ensures
        access_sum(m) == m[k].1.access_count + access_sum(m.remove(k)),
    decreases m.dom().len(),
{
    let c = m.dom().choose();
    assert(m.dom().contains(c));
    if c != k {
        let mc = m.remove(c);
        let mk = m.remove(k);
        lemma_access_sum_remove(mc, k);
        lemma_access_sum_remove(mk, c);
        assert(mc.remove(k) =~= mk.remove(c));
    }
}

proof fn lemma_access_sum_insert<KV, W>(m: Map<KV, (W, EntryMeta)>, k: KV, s: (W, EntryMeta))
    requires
        m.dom().finite(),
        !m.dom().contains(k),
    ensures
        access_sum(m.insert(k, s)) == s.1.access_count + access_sum(m),
{
    lemma_access_sum_remove(m.insert(k, s), k);
    assert(m.insert(k, s).remove(k) =~= m);
}

proof fn lemma_live_insert<KV, W>(m: Map<KV, (W, EntryMeta)>, k: KV, s: (W, EntryMeta), now: i64)
    requires
        m.dom().finite(),
        !m.dom().contains(k),
    ensures
        live_entries(m, now).dom().finite(),
        live_entries(m.insert(k, s), now) == if s.1.expires_at > now {
            live_entries(m, now).insert(k, s)
        } else {
            live_entries(m, now)
        },
        live_entries(m.insert(k, s), now).len() == live_entries(m, now).len() + if s.1.expires_at
            > now {
            1int
        } else {
            0int
        },
{
    assert(live_entries(m, now).dom().subset_of(m.dom()));
    vstd::set_lib::lemma_len_subset(live_entries(m, now).dom(), m.dom());
    if s.1.expires_at > now {
        assert(live_entries(m.insert(k, s), now) =~= live_entries(m, now).insert(k, s));
    } else {
        assert(live_entries(m.insert(k, s), now) =~= live_entries(m, now));
    }
}

proof fn lemma_wrapping_step(p: nat, c: u64)
    ensures
        (if (p % 0x1_0000_0000_0000_0000) + c > u64::MAX {
            (p % 0x1_0000_0000_0000_0000) + c - 0x1_0000_0000_0000_0000
        } else {
            (p % 0x1_0000_0000_0000_0000) + c
        }) == (p + c) % 0x1_0000_0000_0000_0000,
{
    let m: int = 0x1_0000_0000_0000_0000;
    let pi: int = p as int;
    let r = pi % m;
    let q = pi / m;
    vstd::arithmetic::div_mod::lemma_fundamental_div_mod(pi, m);
    assert(p == m * q + r && 0 <= r < m);
    assert(m * q == q * m) by (nonlinear_arith);
    if r + c >= m {
        assert((p + c) % m == r + c - m) by (nonlinear_arith)
            requires
                p == q * m + r,
                m <= r + c < 2 * m,
                m > 0,
        {
            assert(p + c == (q + 1) * m + (r + c - m));
        }
    } else {
        assert((p + c) % m == r + c) by (nonlinear_arith)
            requires
                p == q * m + r,
                0 <= r + c < m,
                m > 0,
        {
            assert(p + c == q * m + (r + c));
        }
    }
}

/// A summary of one cache's contents at a moment.
#[derive(Clone, Copy, Debug, PartialEq, Eq)]
pub struct CacheStats {
    /// Entries stored, expired ones included.
    pub size: usize,
    /// Entries whose expiry lies after the moment.
    pub valid_entries: usize,
    /// Entries whose expiry does not lie after the moment.
    pub expired_entries: usize,
    /// The sum of the entries' access counters, modulo 2^64.
    pub total_accesses: u64,
    /// The capacity the cache was made with.
    pub capacity: usize,
}

impl<K: CacheKey, V: CacheValue> LruCache<K, V> {
    /// Counts the cache's entries at time `now`.
    pub fn stats(&self, now: i64) -> (st: CacheStats)
        requires
            self.wf(),
        ensures
            st.size == self.entries().len(),
            st.valid_entries == live_entries(self.entries(), now).len(),
            st.expired_entries == self.entries().len() - live_entries(self.entries(), now).len(),
            st.total_accesses == access_sum(self.entries()) % 0x1_0000_0000_0000_0000,
            st.capacity == self.capacity(),
    {
        let ghost ks = self.key_seq();
        let ghost ss = self.slot_seq();
        let mut valid: usize = 0;
        let mut total: u64 = 0;
        let mut i: usize = 0;
        proof {
            lemma_assoc_len(ks.take(0), ss.take(0));
            assert(assoc_map(ks.take(0), ss.take(0)) =~= Map::<K::V, (V::V, EntryMeta)>::empty());
            assert(live_entries(Map::<K::V, (V::V, EntryMeta)>::empty(), now) =~= Map::<
                K::V,
                (V::V, EntryMeta),
            >::empty());
        }
        while i < self.keys.len()
            invariant
                self.wf(),
                ks == self.key_seq(),
                ss == self.slot_seq(),
                i <= self.keys@.len(),
                valid <= i,
                ks.take(i as int).no_duplicates(),
                assoc_map(ks.take(i as int), ss.take(i as int)).dom().finite(),
                valid == live_entries(assoc_map(ks.take(i as int), ss.take(i as int)), now).len(),
                total == access_sum(assoc_map(ks.take(i as int), ss.take(i as int)))
                    % 0x1_0000_0000_0000_0000,
            decreases self.keys@.len() - i,
        {
            let ghost m = assoc_map(ks.take(i as int), ss.take(i as int));
            let ghost s = ss[i as int];
            proof {
                assert(ks.take(i as int + 1) =~= ks.take(i as int).push(ks[i as int]));
                assert(ss.take(i as int + 1) =~= ss.take(i as int).push(s));
                assert(!ks.take(i as int).contains(ks[i as int])) by {
                    if ks.take(i as int).contains(ks[i as int]) {
                        let j = choose|j: int| 0 <= j < i && ks.take(i as int)[j] == ks[i as int];
                        assert(ks[j] == ks[i as int]);
                    }
                }
                lemma_assoc_push(ks.take(i as int), ss.take(i as int), ks[i as int], s);
                lemma_assoc_len(ks.take(i as int), ss.take(i as int));
                lemma_assoc_len(ks.take(i as int + 1), ss.take(i as int + 1));
                lemma_live_insert(m, ks[i as int], s, now);
                lemma_access_sum_insert(m, ks[i as int], s);
                lemma_wrapping_step(access_sum(m), s.1.access_count);
            }
            let meta = self.metas[i];
            if meta.expires_at > now {
                valid = valid + 1;
            }
            total = total.wrapping_add(meta.access_count);
            i = i + 1;
        }
        proof {
            assert(ks.take(i as int) =~= ks);
            assert(ss.take(i as int) =~= ss);
            self.lemma_view();
        }
        let size = self.keys.len();
        CacheStats {
            size,
            valid_entries: valid,
            expired_entries: size - valid,
            total_accesses: total,
            capacity: self.max_size,
        }
    }
}

/// `st` describes a cache holding `m`, made with capacity `cap`, at time `now`.
pub open spec fn stats_match<KV, W>(st: CacheStats, m: Map<KV, (W, EntryMeta)>, cap: nat, now: i64) -> bool {
    &&& st.size == m.len()
    &&& st.valid_entries == live_entries(m, now).len()
    &&& st.expired_entries == m.len() - live_entries(m, now).len()
    &&& st.total_accesses == access_sum(m) % 0x1_0000_0000_0000_0000
    &&& st.capacity == cap
}

// ---------------------------------------------------------------------------
// Laws of the LRU cache
// ---------------------------------------------------------------------------

/// A value written with lifetime `ttl` at `now` is read back unchanged at any
/// time up to its expiry.
pub proof fn law_get_after_put<KV, W>(
    before: Map<KV, (W, EntryMeta)>,
    after: Map<KV, (W, EntryMeta)>,
    cap: nat,
    k: KV,
    w: W,
    now: i64,
    ttl: i64,
    later: i64,
)
    requires
        put_outcome(before, after, cap, k, w, now, ttl),
        later <= expiry_after(now, ttl),
    ensures
        get_result(after, k, later) == Some(w),
{
    let live = live_entries(before, now);
    if live.len() >= cap && live.len() > 0 {
        let v = choose|v: KV| is_lru_key(live, v) && after == live.remove(v).insert(k, (w, fresh_meta(now, ttl)));
    }
}

/// A write leaves every other entry that was live at the time of the write in
/// place, except the one least recently used entry that a full cache gives up.
pub proof fn law_put_keeps_others<KV, W>(
    before: Map<KV, (W, EntryMeta)>,
    after: Map<KV, (W, EntryMeta)>,
    cap: nat,
    k: KV,
    w: W,
    now: i64,
    ttl: i64,
    other: KV,
)
    requires
        put_outcome(before, after, cap, k, w, now, ttl),
        other != k,
        live_entries(before, now).dom().contains(other),
        !(live_entries(before, now).len() >= cap && is_lru_key(live_entries(before, now), other)),
    ensures
        after.dom().contains(other),
        after[other] == before[other],
{
    let live = live_entries(before, now);
    if live.len() >= cap && live.len() > 0 {
        let v = choose|v: KV| is_lru_key(live, v) && after == live.remove(v).insert(k, (w, fresh_meta(now, ttl)));
        assert(v != other);
    }
}

/// An invalidated key is not found afterwards.
pub proof fn law_get_after_invalidate<KV, W>(m: Map<KV, (W, EntryMeta)>, k: KV, now: i64)
    ensures
        get_result(m.remove(k), k, now) == None::<W>,
{
}

/// A read never returns an expired entry.
pub proof fn law_get_not_expired<KV, W>(m: Map<KV, (W, EntryMeta)>, k: KV, now: i64)
    requires
        get_result(m, k, now) is Some,
    ensures
        m.dom().contains(k),
        !is_expired(m[k].1, now),
        get_state(m, k, now).dom().contains(k),
        get_state(m, k, now)[k].1.last_accessed == now,
{
}

/// A cache never holds more entries than its capacity (or one, for a cache
/// made with capacity zero).
pub proof fn law_size_bounded<K: CacheKey, V: CacheValue>(c: LruCache<K, V>)
    requires
        c.wf(),
    ensures
        c.entries().len() <= if c.capacity() == 0 {
            1
        } else {
            c.capacity()
        },
{
    c.lemma_view();
}

// ---------------------------------------------------------------------------
// Cached records
// ---------------------------------------------------------------------------

/// A stored workflow definition, as its table row holds it.
#[derive(Clone, Debug)]
pub struct WorkflowRow {
    pub id: String,
    pub name: String,
    pub description: Option<String>,
    pub definition: String,
    pub version: i64,
    pub tags: Option<String>,
    pub created_at: String,
    pub updated_at: String,
}

impl View for WorkflowRow {
    type V = WorkflowRow;

    open spec fn view(&self) -> WorkflowRow {
        *self
    }
}

fn copy_opt_string(o: &Option<String>) -> (r: Option<String>)
    ensures
        r == *o,
{
    match o {
        Some(s) => Some(s.clone()),
        None => None,
    }
}

impl CacheValue for WorkflowRow {
    fn duplicate(&self) -> (r: Self) {
        WorkflowRow {
            id: self.id.clone(),
            name: self.name.clone(),
            description: copy_opt_string(&self.description),
            definition: self.definition.clone(),
            version: self.version,
            tags: copy_opt_string(&self.tags),
            created_at: self.created_at.clone(),
            updated_at: self.updated_at.clone(),
        }
    }
}

/// The execution limit of a user (the user is named by its UUID as a `u128`).
#[derive(Clone, Copy, Debug)]
pub struct UserQuota {
    pub user_id: u128,
    pub max_executions: i64,
}

impl View for UserQuota {
    type V = UserQuota;

    open spec fn view(&self) -> UserQuota {
        *self
    }
}

impl CacheValue for UserQuota {
    fn duplicate(&self) -> (r: Self) {
        *self
    }
}

/// The execution limit of a workflow (named by its UUID as a `u128`).
#[derive(Clone, Copy, Debug)]
pub struct WorkflowQuota {
    pub workflow_id: u128,
    pub max_executions: i64,
}

impl View for WorkflowQuota {
    type V = WorkflowQuota;

    open spec fn view(&self) -> WorkflowQuota {
        *self
    }
}

impl CacheValue for WorkflowQuota {
    fn duplicate(&self) -> (r: Self) {
        *self
    }
}

// ---------------------------------------------------------------------------
// Configuration and metrics
// ---------------------------------------------------------------------------

/// Settings shared by the caches of a [`Cache`].
#[derive(Clone, Copy, Debug)]
pub struct CacheConfig {
    /// Maximum number of entries per cache.
    pub max_size: usize,
    /// Lifetime given to every written entry.
    pub default_ttl: std::time::Duration,
    /// Whether hits, misses and invalidations are counted.
    pub enable_metrics: bool,
}

impl Default for CacheConfig {
    fn default() -> (c: Self)
        ensures
            c.max_size == 1000,
            c.default_ttl == duration_of_secs(300),
            duration_micros(c.default_ttl) == 300_000_000,
            c.enable_metrics,
    {
        CacheConfig { max_size: 1000, default_ttl: duration_from_secs(300), enable_metrics: true }
    }
}

/// The lifetime, in microseconds, that a span of `us` microseconds gives an
/// entry: the span itself when it fits in an `i64`, five minutes otherwise.
pub open spec fn ttl_micros_of(us: nat) -> i64 {
    if us <= i64::MAX {
        us as i64
    } else {
        300_000_000
    }
}

fn ttl_micros(d: &std::time::Duration) -> (r: i64)
    ensures
        r == ttl_micros_of(duration_micros(*d)),
{
    let us = duration_as_micros(d);
    if us <= 0x7fff_ffff_ffff_ffff {
        us as i64
    } else {
        300_000_000
    }
}

/// Hit, miss and invalidation counters of a [`Cache`] (each wraps at 2^64).
#[derive(Clone, Copy, Debug, PartialEq, Eq)]
pub struct CacheMetrics {
    pub workflow_hits: u64,
    pub workflow_misses: u64,
    pub user_quota_hits: u64,
    pub user_quota_misses: u64,
    pub workflow_quota_hits: u64,
    pub workflow_quota_misses: u64,
    pub api_key_hits: u64,
    pub api_key_misses: u64,
    pub evictions: u64,
    pub invalidations: u64,
}

/// All counters at zero.
pub open spec fn zero_metrics() -> CacheMetrics {
    CacheMetrics {
        workflow_hits: 0,
        workflow_misses: 0,
        user_quota_hits: 0,
        user_quota_misses: 0,
        workflow_quota_hits: 0,
        workflow_quota_misses: 0,
        api_key_hits: 0,
        api_key_misses: 0,
        evictions: 0,
        invalidations: 0,
    }
}

impl Default for CacheMetrics {
    fn default() -> (m: Self)
        ensures
            m == zero_metrics(),
    {
        CacheMetrics {
            workflow_hits: 0,
            workflow_misses: 0,
            user_quota_hits: 0,
            user_quota_misses: 0,
            workflow_quota_hits: 0,
            workflow_quota_misses: 0,
            api_key_hits: 0,
            api_key_misses: 0,
            evictions: 0,
            invalidations: 0,
        }
    }
}

/// `x + 1`, wrapping at 2^64.
pub open spec fn bump(x: u64) -> u64 {
    if x == u64::MAX {
        0
    } else {
        (x + 1) as u64
    }
}

fn bump_exec(x: u64) -> (r: u64)
    ensures
        r == bump(x),
{
    x.wrapping_add(1)
}

// ---------------------------------------------------------------------------
// The multi-level cache
// ---------------------------------------------------------------------------

/// The statistics of the four caches of a [`Cache`], looked up by name.
#[derive(Clone, Copy, Debug)]
pub struct CacheStatsByName {
    pub workflows: CacheStats,
    pub user_quotas: CacheStats,
    pub workflow_quotas: CacheStats,
    pub api_keys: CacheStats,
}

fn str_is(a: &str, b: &str) -> (r: bool)
    ensures
        r == (a@ == b@),
{
    let x = a.to_owned();
    let y = b.to_owned();
    x == y
}

impl CacheStatsByName {
    /// The statistics of the cache called `name` (`"workflows"`,
    /// `"user_quotas"`, `"workflow_quotas"` or `"api_keys"`).
    pub fn get(&self, name: &str) -> (r: Option<CacheStats>)
        ensures
            r == (if name@ == "workflows"@ {
                Some(self.workflows)
            } else if name@ == "user_quotas"@ {
                Some(self.user_quotas)
            } else if name@ == "workflow_quotas"@ {
                Some(self.workflow_quotas)
            } else if name@ == "api_keys"@ {
                Some(self.api_keys)
            } else {
                None
            }),
    {
        if str_is(name, "workflows") {
            Some(self.workflows)
        } else if str_is(name, "user_quotas") {
            Some(self.user_quotas)
        } else if str_is(name, "workflow_quotas") {
            Some(self.workflow_quotas)
        } else if str_is(name, "api_keys") {
            Some(self.api_keys)
        } else {
            None
        }
    }
}

/// Caches for workflow definitions, user quotas, workflow quotas and
/// encrypted API keys, sharing one configuration and one set of counters.
/// The time `now` of an operation follows the time `before` of the previous
/// one: it is later (equal only once the clock's range is exhausted), and it
/// becomes the latest time `after`.
pub open spec fn time_advanced(before: i64, after: i64, now: i64) -> bool {
    &&& before <= now
    &&& before < i64::MAX ==> before < now
    &&& after == now
}

pub struct Cache {
    workflows: LruCache<u128, WorkflowRow>,
    user_quotas: LruCache<u128, UserQuota>,
    workflow_quotas: LruCache<u128, WorkflowQuota>,
    api_keys: LruCache<String, Vec<u8>>,
    config: CacheConfig,
    ttl: i64,
    metrics: CacheMetrics,
    /// The time of the latest operation: each operation runs at a later
    /// time than the one before, so that recency is never a tie.
    last_now: i64,
}

impl Cache {
    pub closed spec fn workflows(&self) -> Map<u128, (WorkflowRow, EntryMeta)> {
        self.workflows.entries()
    }

    pub closed spec fn user_quotas(&self) -> Map<u128, (UserQuota, EntryMeta)> {
        self.user_quotas.entries()
    }

    pub closed spec fn workflow_quotas(&self) -> Map<u128, (WorkflowQuota, EntryMeta)> {
        self.workflow_quotas.entries()
    }

    pub closed spec fn api_keys(&self) -> Map<Seq<char>, (Seq<u8>, EntryMeta)> {
        self.api_keys.entries()
    }

    pub closed spec fn config_spec(&self) -> CacheConfig {
        self.config
    }

    pub closed spec fn metrics_spec(&self) -> CacheMetrics {
        self.metrics
    }

    /// The time of the latest operation (microseconds since the epoch).
    pub closed spec fn latest_time(&self) -> i64 {
        self.last_now
    }

    /// The lifetime, in microseconds, given to written entries.
    pub open spec fn ttl_spec(&self) -> i64 {
        ttl_micros_of(duration_micros(self.config_spec().default_ttl))
    }

    /// Each cache well formed and made with the configured capacity.
    pub closed spec fn wf(&self) -> bool {
        &&& self.workflows.wf()
        &&& self.user_quotas.wf()
        &&& self.workflow_quotas.wf()
        &&& self.api_keys.wf()
        &&& self.workflows.capacity() == self.config.max_size
        &&& self.user_quotas.capacity() == self.config.max_size
        &&& self.workflow_quotas.capacity() == self.config.max_size
        &&& self.api_keys.capacity() == self.config.max_size
        &&& self.ttl == self.ttl_spec()
    }

    /// Empty caches with the given configuration, counters at zero.
    pub fn new(config: CacheConfig) -> (c: Self)
        ensures
            c.wf(),
            c.config_spec() == config,
            c.metrics_spec() == zero_metrics(),
            c.workflows() == Map::<u128, (WorkflowRow, EntryMeta)>::empty(),
            c.user_quotas() == Map::<u128, (UserQuota, EntryMeta)>::empty(),
            c.workflow_quotas() == Map::<u128, (WorkflowQuota, EntryMeta)>::empty(),
            c.api_keys() == Map::<Seq<char>, (Seq<u8>, EntryMeta)>::empty(),
            c.latest_time() == i64::MIN,
    {
        let ttl = ttl_micros(&config.default_ttl);
        Cache {
            workflows: LruCache::new(config.max_size),
            user_quotas: LruCache::new(config.max_size),
            workflow_quotas: LruCache::new(config.max_size),
            api_keys: LruCache::new(config.max_size),
            config,
            ttl,
            metrics: CacheMetrics::default(),
            last_now: i64::MIN,
        }
    }

    /// The time of an operation: the clock, moved past the time of the
    /// previous operation when it has not advanced.
    fn tick(&mut self) -> (now: i64)
        ensures
            final(self).workflows() == old(self).workflows(),
            final(self).user_quotas() == old(self).user_quotas(),
            final(self).workflow_quotas() == old(self).workflow_quotas(),
            final(self).api_keys() == old(self).api_keys(),
            final(self).config_spec() == old(self).config_spec(),
            final(self).metrics_spec() == old(self).metrics_spec(),
            final(self).wf() == old(self).wf(),
            now >= old(self).latest_time(),
            old(self).latest_time() < i64::MAX ==> now > old(self).latest_time(),
            final(self).latest_time() == now,
    {
        let clock = utc_now_micros();
        let now = if clock > self.last_now {
            clock
        } else if self.last_now < i64::MAX {
            self.last_now + 1
        } else {
            self.last_now
        };
        self.last_now = now;
        now
    }

    // ----- workflows -----

    /// Reads a workflow at the current time, counting a hit or a miss when
    /// metrics are enabled.
    pub fn get_workflow(&mut self, id: u128) -> (r: Option<WorkflowRow>)
        requires
            old(self).wf(),
        ensures
            final(self).wf(),
            exists|now: i64|
                #![trigger get_state(old(self).workflows(), id, now)]
                time_advanced(old(self).latest_time(), final(self).latest_time(), now) &&
                final(self).workflows() == get_state(old(self).workflows(), id, now) && r
                    == get_result(old(self).workflows(), id, now),
            final(self).metrics_spec() == (if !old(self).config_spec().enable_metrics {
                old(self).metrics_spec()
            } else if r is Some {
                CacheMetrics { workflow_hits: bump(old(self).metrics_spec().workflow_hits), ..old(self).metrics_spec() }
            } else {
                CacheMetrics { workflow_misses: bump(old(self).metrics_spec().workflow_misses), ..old(self).metrics_spec() }
            }),
            final(self).user_quotas() == old(self).user_quotas(),
            final(self).workflow_quotas() == old(self).workflow_quotas(),
            final(self).api_keys() == old(self).api_keys(),
            final(self).config_spec() == old(self).config_spec(),
    {
        let now = self.tick();
        let ghost before = self.workflows();
        let result = self.workflows.get(&id, now);
        assert(opt_view(result) == result);
        assert(self.workflows() == get_state(before, id, now) && result == get_result(before, id, now));
        if self.config.enable_metrics {
            if result.is_some() {
                self.metrics.workflow_hits = bump_exec(self.metrics.workflow_hits);
            } else {
                self.metrics.workflow_misses = bump_exec(self.metrics.workflow_misses);
            }
        }
        result
    }

    /// Writes a workflow at the current time with the configured lifetime.
    pub fn put_workflow(&mut self, id: u128, workflow: WorkflowRow)
        requires
            old(self).wf(),
        ensures
            final(self).wf(),
            exists|now: i64|
                #![trigger live_entries(old(self).workflows(), now)]
                time_advanced(old(self).latest_time(), final(self).latest_time(), now) &&
                put_outcome(
                    old(self).workflows(),
                    final(self).workflows(),
                    old(self).config_spec().max_size as nat,
                    id,
                    workflow,
                    now,
                    old(self).ttl_spec(),
                ),
            final(self).metrics_spec() == old(self).metrics_spec(),
            final(self).user_quotas() == old(self).user_quotas(),
            final(self).workflow_quotas() == old(self).workflow_quotas(),
            final(self).api_keys() == old(self).api_keys(),
            final(self).config_spec() == old(self).config_spec(),
    {
        let now = self.tick();
        let ghost before = self.workflows();
        self.workflows.put(id, workflow, self.ttl, now);
        // Mentions the sweep at `now`, the witness of the `exists` above.
        assert(live_entries(before, now) == live_entries(before, now));
    }

    /// Drops a workflow, counting an invalidation when metrics are enabled.
    pub fn invalidate_workflow(&mut self, id: u128)
        requires
            old(self).wf(),
        ensures
            final(self).latest_time() == old(self).latest_time(),
            final(self).wf(),
            final(self).workflows() == old(self).workflows().remove(id),
            final(self).metrics_spec() == (if old(self).config_spec().enable_metrics {
                CacheMetrics { invalidations: bump(old(self).metrics_spec().invalidations), ..old(self).metrics_spec() }
            } else {
                old(self).metrics_spec()
            }),
            final(self).user_quotas() == old(self).user_quotas(),
            final(self).workflow_quotas() == old(self).workflow_quotas(),
            final(self).api_keys() == old(self).api_keys(),
            final(self).config_spec() == old(self).config_spec(),
    {
        self.workflows.invalidate(&id);
        if self.config.enable_metrics {
            self.metrics.invalidations = bump_exec(self.metrics.invalidations);
        }
    }
    // ----- user quotas -----

    /// Reads a user quota at the current time, counting a hit or a miss when
    /// metrics are enabled.
    pub fn get_user_quota(&mut self, id: u128) -> (r: Option<UserQuota>)
        requires
            old(self).wf(),
        ensures
            final(self).wf(),
            exists|now: i64|
                #![trigger get_state(old(self).user_quotas(), id, now)]
                time_advanced(old(self).latest_time(), final(self).latest_time(), now) &&
                final(self).user_quotas() == get_state(old(self).user_quotas(), id, now) && r
                    == get_result(old(self).user_quotas(), id, now),
            final(self).metrics_spec() == (if !old(self).config_spec().enable_metrics {
                old(self).metrics_spec()
            } else if r is Some {
                CacheMetrics { user_quota_hits: bump(old(self).metrics_spec().user_quota_hits), ..old(self).metrics_spec() }
            } else {
                CacheMetrics { user_quota_misses: bump(old(self).metrics_spec().user_quota_misses), ..old(self).metrics_spec() }
            }),
            final(self).workflows() == old(self).workflows(),
            final(self).workflow_quotas() == old(self).workflow_quotas(),
            final(self).api_keys() == old(self).api_keys(),
            final(self).config_spec() == old(self).config_spec(),
    {
        let now = self.tick();
        let ghost before = self.user_quotas();
        let result = self.user_quotas.get(&id, now);
        assert(opt_view(result) == result);
        assert(self.user_quotas() == get_state(before, id, now) && result == get_result(before, id, now));
        if self.config.enable_metrics {
            if result.is_some() {
                self.metrics.user_quota_hits = bump_exec(self.metrics.user_quota_hits);
            } else {
                self.metrics.user_quota_misses = bump_exec(self.metrics.user_quota_misses);
            }
        }
        result
    }

    /// Writes a user quota at the current time with the configured lifetime.
    pub fn put_user_quota(&mut self, id: u128, quota: UserQuota)
        requires
            old(self).wf(),
        ensures
            final(self).wf(),
            exists|now: i64|
                #![trigger live_entries(old(self).user_quotas(), now)]
                time_advanced(old(self).latest_time(), final(self).latest_time(), now) &&
                put_outcome(
                    old(self).user_quotas(),
                    final(self).user_quotas(),
                    old(self).config_spec().max_size as nat,
                    id,
                    quota,
                    now,
                    old(self).ttl_spec(),
                ),
            final(self).metrics_spec() == old(self).metrics_spec(),
            final(self).workflows() == old(self).workflows(),
            final(self).workflow_quotas() == old(self).workflow_quotas(),
            final(self).api_keys() == old(self).api_keys(),
            final(self).config_spec() == old(self).config_spec(),
    {
        let now = self.tick();
        let ghost before = self.user_quotas();
        self.user_quotas.put(id, quota, self.ttl, now);
        // Mentions the sweep at `now`, the witness of the `exists` above.
        assert(live_entries(before, now) == live_entries(before, now));
    }

    /// Drops a user quota, counting an invalidation when metrics are enabled.
    pub fn invalidate_user_quota(&mut self, id: u128)
        requires
            old(self).wf(),
        ensures
            final(self).latest_time() == old(self).latest_time(),
            final(self).wf(),
            final(self).user_quotas() == old(self).user_quotas().remove(id),
            final(self).metrics_spec() == (if old(self).config_spec().enable_metrics {
                CacheMetrics { invalidations: bump(old(self).metrics_spec().invalidations), ..old(self).metrics_spec() }
            } else {
                old(self).metrics_spec()
            }),
            final(self).workflows() == old(self).workflows(),
            final(self).workflow_quotas() == old(self).workflow_quotas(),
            final(self).api_keys() == old(self).api_keys(),
            final(self).config_spec() == old(self).config_spec(),
    {
        self.user_quotas.invalidate(&id);
        if self.config.enable_metrics {
            self.metrics.invalidations = bump_exec(self.metrics.invalidations);
        }
    }
    // ----- workflow quotas -----

    /// Reads a workflow quota at the current time, counting a hit or a miss when
    /// metrics are enabled.
    pub fn get_workflow_quota(&mut self, id: u128) -> (r: Option<WorkflowQuota>)
        requires
            old(self).wf(),
        ensures
            final(self).wf(),
            exists|now: i64|
                #![trigger get_state(old(self).workflow_quotas(), id, now)]
                time_advanced(old(self).latest_time(), final(self).latest_time(), now) &&
                final(self).workflow_quotas() == get_state(old(self).workflow_quotas(), id, now) && r
                    == get_result(old(self).workflow_quotas(), id, now),
            final(self).metrics_spec() == (if !old(self).config_spec().enable_metrics {
                old(self).metrics_spec()
            } else if r is Some {
                CacheMetrics { workflow_quota_hits: bump(old(self).metrics_spec().workflow_quota_hits), ..old(self).metrics_spec() }
            } else {
                CacheMetrics { workflow_quota_misses: bump(old(self).metrics_spec().workflow_quota_misses), ..old(self).metrics_spec() }
            }),
            final(self).workflows() == old(self).workflows(),
            final(self).user_quotas() == old(self).user_quotas(),
            final(self).api_keys() == old(self).api_keys(),
            final(self).config_spec() == old(self).config_spec(),
    {
        let now = self.tick();
        let ghost before = self.workflow_quotas();
        let result = self.workflow_quotas.get(&id, now);
        assert(opt_view(result) == result);
        assert(self.workflow_quotas() == get_state(before, id, now) && result == get_result(before, id, now));
        if self.config.enable_metrics {
            if result.is_some() {
                self.metrics.workflow_quota_hits = bump_exec(self.metrics.workflow_quota_hits);
            } else {
                self.metrics.workflow_quota_misses = bump_exec(self.metrics.workflow_quota_misses);
            }
        }
        result
    }

    /// Writes a workflow quota at the current time with the configured lifetime.
    pub fn put_workflow_quota(&mut self, id: u128, quota: WorkflowQuota)
        requires
            old(self).wf(),
        ensures
            final(self).wf(),
            exists|now: i64|
                #![trigger live_entries(old(self).workflow_quotas(), now)]
                time_advanced(old(self).latest_time(), final(self).latest_time(), now) &&
                put_outcome(
                    old(self).workflow_quotas(),
                    final(self).workflow_quotas(),
                    old(self).config_spec().max_size as nat,
                    id,
                    quota,
                    now,
                    old(self).ttl_spec(),
                ),
            final(self).metrics_spec() == old(self).metrics_spec(),
            final(self).workflows() == old(self).workflows(),
            final(self).user_quotas() == old(self).user_quotas(),
            final(self).api_keys() == old(self).api_keys(),
            final(self).config_spec() == old(self).config_spec(),
    {
        let now = self.tick();
        let ghost before = self.workflow_quotas();
        self.workflow_quotas.put(id, quota, self.ttl, now);
        // Mentions the sweep at `now`, the witness of the `exists` above.
        assert(live_entries(before, now) == live_entries(before, now));
    }

    /// Drops a workflow quota, counting an invalidation when metrics are enabled.
    pub fn invalidate_workflow_quota(&mut self, id: u128)
        requires
            old(self).wf(),
        ensures
            final(self).latest_time() == old(self).latest_time(),
            final(self).wf(),
            final(self).workflow_quotas() == old(self).workflow_quotas().remove(id),
            final(self).metrics_spec() == (if old(self).config_spec().enable_metrics {
                CacheMetrics { invalidations: bump(old(self).metrics_spec().invalidations), ..old(self).metrics_spec() }
            } else {
                old(self).metrics_spec()
            }),
            final(self).workflows() == old(self).workflows(),
            final(self).user_quotas() == old(self).user_quotas(),
            final(self).api_keys() == old(self).api_keys(),
            final(self).config_spec() == old(self).config_spec(),
    {
        self.workflow_quotas.invalidate(&id);
        if self.config.enable_metrics {
            self.metrics.invalidations = bump_exec(self.metrics.invalidations);
        }
    }

    // ----- API keys -----

    /// Reads an encrypted API key by the hash of the key, at the current time,
    /// counting a hit or a miss when metrics are enabled.
    pub fn get_api_key(&mut self, key_hash: &str) -> (r: Option<Vec<u8>>)
        requires
            old(self).wf(),
        ensures
            final(self).wf(),
            exists|now: i64|
                #![trigger get_state(old(self).api_keys(), key_hash@, now)]
                time_advanced(old(self).latest_time(), final(self).latest_time(), now) &&
                final(self).api_keys() == get_state(old(self).api_keys(), key_hash@, now)
                    && opt_view(r) == get_result(old(self).api_keys(), key_hash@, now),
            final(self).metrics_spec() == (if !old(self).config_spec().enable_metrics {
                old(self).metrics_spec()
            } else if r is Some {
                CacheMetrics { api_key_hits: bump(old(self).metrics_spec().api_key_hits), ..old(self).metrics_spec() }
            } else {
                CacheMetrics { api_key_misses: bump(old(self).metrics_spec().api_key_misses), ..old(self).metrics_spec() }
            }),
            final(self).workflows() == old(self).workflows(),
            final(self).user_quotas() == old(self).user_quotas(),
            final(self).workflow_quotas() == old(self).workflow_quotas(),
            final(self).config_spec() == old(self).config_spec(),
    {
        let now = self.tick();
        let ghost before = self.api_keys();
        let key = key_hash.to_owned();
        let result = self.api_keys.get(&key, now);
        assert(self.api_keys() == get_state(before, key_hash@, now) && opt_view(result) == get_result(
            before,
            key_hash@,
            now,
        ));
        if self.config.enable_metrics {
            if result.is_some() {
                self.metrics.api_key_hits = bump_exec(self.metrics.api_key_hits);
            } else {
                self.metrics.api_key_misses = bump_exec(self.metrics.api_key_misses);
            }
        }
        result
    }

    /// Writes an encrypted API key under the hash of the key, at the current
    /// time with the configured lifetime.
    pub fn put_api_key(&mut self, key_hash: String, encrypted_key: Vec<u8>)
        requires
            old(self).wf(),
        ensures
            final(self).wf(),
            exists|now: i64|
                #![trigger live_entries(old(self).api_keys(), now)]
                time_advanced(old(self).latest_time(), final(self).latest_time(), now) &&
                put_outcome(
                    old(self).api_keys(),
                    final(self).api_keys(),
                    old(self).config_spec().max_size as nat,
                    key_hash@,
                    encrypted_key@,
                    now,
                    old(self).ttl_spec(),
                ),
            final(self).metrics_spec() == old(self).metrics_spec(),
            final(self).workflows() == old(self).workflows(),
            final(self).user_quotas() == old(self).user_quotas(),
            final(self).workflow_quotas() == old(self).workflow_quotas(),
            final(self).config_spec() == old(self).config_spec(),
    {
        let now = self.tick();
        let ghost before = self.api_keys();
        self.api_keys.put(key_hash, encrypted_key, self.ttl, now);
        // Mentions the sweep at `now`, the witness of the `exists` above.
        assert(live_entries(before, now) == live_entries(before, now));
    }

    /// Drops an API key, counting an invalidation when metrics are enabled.
    pub fn invalidate_api_key(&mut self, key_hash: &str)
        requires
            old(self).wf(),
        ensures
            final(self).latest_time() == old(self).latest_time(),
            final(self).wf(),
            final(self).api_keys() == old(self).api_keys().remove(key_hash@),
            final(self).metrics_spec() == (if old(self).config_spec().enable_metrics {
                CacheMetrics { invalidations: bump(old(self).metrics_spec().invalidations), ..old(self).metrics_spec() }
            } else {
                old(self).metrics_spec()
            }),
            final(self).workflows() == old(self).workflows(),
            final(self).user_quotas() == old(self).user_quotas(),
            final(self).workflow_quotas() == old(self).workflow_quotas(),
            final(self).config_spec() == old(self).config_spec(),
    {
        let key = key_hash.to_owned();
        self.api_keys.invalidate(&key);
        if self.config.enable_metrics {
            self.metrics.invalidations = bump_exec(self.metrics.invalidations);
        }
    }

    // ----- management -----

    /// Empties the four caches.
    pub fn clear_all(&mut self)
        requires
            old(self).wf(),
        ensures
            final(self).latest_time() == old(self).latest_time(),
            final(self).wf(),
            final(self).workflows() == Map::<u128, (WorkflowRow, EntryMeta)>::empty(),
            final(self).user_quotas() == Map::<u128, (UserQuota, EntryMeta)>::empty(),
            final(self).workflow_quotas() == Map::<u128, (WorkflowQuota, EntryMeta)>::empty(),
            final(self).api_keys() == Map::<Seq<char>, (Seq<u8>, EntryMeta)>::empty(),
            final(self).metrics_spec() == old(self).metrics_spec(),
            final(self).config_spec() == old(self).config_spec(),
    {
        self.workflows.clear();
        self.user_quotas.clear();
        self.workflow_quotas.clear();
        self.api_keys.clear();
    }

    /// Drops the expired entries of the four caches at the current time.
    pub fn evict_expired(&mut self)
        requires
            old(self).wf(),
        ensures
            final(self).wf(),
            exists|now: i64|
                #![trigger live_entries(old(self).workflows(), now)]
                time_advanced(old(self).latest_time(), final(self).latest_time(), now) &&
                final(self).workflows() == live_entries(old(self).workflows(), now)
                    && final(self).user_quotas() == live_entries(old(self).user_quotas(), now)
                    && final(self).workflow_quotas() == live_entries(old(self).workflow_quotas(), now)
                    && final(self).api_keys() == live_entries(old(self).api_keys(), now),
            final(self).metrics_spec() == old(self).metrics_spec(),
            final(self).config_spec() == old(self).config_spec(),
    {
        let now = self.tick();
        let ghost w0 = self.workflows();
        self.workflows.evict_expired(now);
        self.user_quotas.evict_expired(now);
        self.workflow_quotas.evict_expired(now);
        self.api_keys.evict_expired(now);
        assert(self.workflows() == live_entries(w0, now));
    }

    /// The statistics of the four caches at the current time.
    pub fn stats(&self) -> (st: CacheStatsByName)
        requires
            self.wf(),
        ensures
            exists|now: i64|
                #![trigger live_entries(self.workflows(), now)]
                self.latest_time() <= now && stats_match(st.workflows, self.workflows(), self.config_spec().max_size as nat, now)
                    && stats_match(st.user_quotas, self.user_quotas(), self.config_spec().max_size as nat, now)
                    && stats_match(st.workflow_quotas, self.workflow_quotas(), self.config_spec().max_size as nat, now)
                    && stats_match(st.api_keys, self.api_keys(), self.config_spec().max_size as nat, now),
    {
        let clock = utc_now_micros();
        let now = if clock > self.last_now {
            clock
        } else {
            self.last_now
        };
        let st = CacheStatsByName {
            workflows: self.workflows.stats(now),
            user_quotas: self.user_quotas.stats(now),
            workflow_quotas: self.workflow_quotas.stats(now),
            api_keys: self.api_keys.stats(now),
        };
        // Mentions the sweep at `now`, the witness of the `exists` above.
        assert(live_entries(self.workflows(), now) == live_entries(self.workflows(), now));
        st
    }

    /// The counters.
    pub fn metrics(&self) -> (m: CacheMetrics)
        ensures
            m == self.metrics_spec(),
    {
        self.metrics
    }

    /// Sets every counter back to zero.
    pub fn reset_metrics(&mut self)
        requires
            old(self).wf(),
        ensures
            final(self).latest_time() == old(self).latest_time(),
            final(self).wf(),
            final(self).metrics_spec() == zero_metrics(),
            final(self).workflows() == old(self).workflows(),
            final(self).user_quotas() == old(self).user_quotas(),
            final(self).workflow_quotas() == old(self).workflow_quotas(),
            final(self).api_keys() == old(self).api_keys(),
            final(self).config_spec() == old(self).config_spec(),
    {
        self.metrics = CacheMetrics::default();
    }
}

/// An entry the cache writes at `now` lives for exactly the configured
/// default lifetime: with a lifetime of `d` microseconds (that fits in an
/// `i64`, as does `now + d`), the written entry expires at `now + d`, a read
/// up to that moment returns it, and a read after it returns nothing.
pub proof fn law_written_entry_lives_for_default_ttl<KV, W>(
    c: Cache,
    before: Map<KV, (W, EntryMeta)>,
    after: Map<KV, (W, EntryMeta)>,
    cap: nat,
    k: KV,
    w: W,
    now: i64,
    t: i64,
)
    requires
        put_outcome(before, after, cap, k, w, now, c.ttl_spec()),
        duration_micros(c.config_spec().default_ttl) <= i64::MAX,
        now + duration_micros(c.config_spec().default_ttl) <= i64::MAX,
    ensures
        after.dom().contains(k),
        after[k].1.expires_at == now + duration_micros(c.config_spec().default_ttl),
        get_result(after, k, t) == (if t <= now + duration_micros(c.config_spec().default_ttl) {
            Some(w)
        } else {
            None
        }),
{
    let live = live_entries(before, now);
    let entry = (w, fresh_meta(now, c.ttl_spec()));
    if live.len() >= cap && live.len() > 0 {
        let v = choose|v: KV| is_lru_key(live, v) && after == live.remove(v).insert(k, entry);
        assert(after == live.remove(v).insert(k, entry));
    }
    assert(after[k] == entry);
}

} // verus!
