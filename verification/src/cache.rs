//! An in-memory key/value cache with optional expiry, kept in a `DashMap`.

use vstd::prelude::*;
use dashmap::DashMap;
use std::time::{Duration, Instant};

verus! {

/// `dashmap::DashMap`, the concurrent map that holds the cache entries.
#[verifier::external_type_specification]
#[verifier::external_body]
#[verifier::reject_recursive_types(K)]
#[verifier::reject_recursive_types(V)]
#[verifier::reject_recursive_types(S)]
pub struct ExDashMap<K, V, S>(DashMap<K, V, S>);

/// `std::time::Instant`, a reading of the monotonic clock.
#[verifier::external_type_specification]
#[verifier::external_body]
pub struct ExInstant(Instant);

/// `Instant::now` reads the clock; nothing is promised of the reading.
pub assume_specification[ Instant::now ]() -> Instant;

/// `Instant::elapsed` measures the time since a reading; nothing is promised of it.
pub assume_specification[ Instant::elapsed ](i: &Instant) -> Duration;

/// The total number of whole nanoseconds that a duration holds.
pub uninterp spec fn duration_total_nanos(d: Duration) -> u128;

/// `Duration::as_nanos` gives the total number of whole nanoseconds of the duration,
/// a function of the duration alone.
pub assume_specification[ Duration::as_nanos ](d: &Duration) -> (r: u128)
    ensures
        r == duration_total_nanos(*d),
;

/// A stored value and its expiry time (nanoseconds after the cache's origin), if any.
pub type CacheEntry = (Vec<u8>, Option<u64>);

/// The value of a stored entry: its bytes and its expiry time, if any.
pub type CacheEntryView = (Seq<u8>, Option<u64>);

/// The map that holds the cache entries.
pub type CacheMap = DashMap<String, CacheEntry>;

/// The entries that a cache map holds: key, value and expiry time.
pub uninterp spec fn cache_map_contents(m: CacheMap) -> Map<Seq<char>, CacheEntryView>;

/// `DashMap::new`: a map with no entries.
#[verifier::external_body]
fn cache_map_new() -> (fresh: CacheMap)
    ensures
        cache_map_contents(fresh).dom().len() == 0,
        cache_map_contents(fresh).dom().finite(),
{
    DashMap::new()
}

/// `DashMap::get`: the entry stored under `key`, copied out of the map.
#[verifier::external_body]
fn cache_map_get(m: &CacheMap, key: &str) -> (r: Option<CacheEntry>)
    ensures
        match r {
            Some(e) => cache_map_contents(*m).contains_key(key@) && cache_map_contents(*m)[key@] == (e.0@, e.1),
            None => !cache_map_contents(*m).contains_key(key@),
        },
{
    m.get(key).map(|e| (e.value().0.clone(), e.value().1))
}

/// `DashMap::insert`: stores the entry under `key`, replacing any earlier one.
#[verifier::external_body]
fn cache_map_insert(m: &mut CacheMap, key: String, value: CacheEntry)
    ensures
        cache_map_contents(*final(m)) == cache_map_contents(*old(m)).insert(key@, (value.0@, value.1)),
{
    m.insert(key, value);
}

/// `DashMap::remove`: takes the entry under `key` out of the map.
#[verifier::external_body]
fn cache_map_remove(m: &mut CacheMap, key: &str) -> (r: Option<CacheEntry>)
    ensures
        cache_map_contents(*final(m)) == cache_map_contents(*old(m)).remove(key@),
        match r {
            Some(e) => cache_map_contents(*old(m)).contains_key(key@) && cache_map_contents(*old(m))[key@] == (e.0@, e.1),
            None => !cache_map_contents(*old(m)).contains_key(key@),
        },
{
    m.remove(key).map(|(_, e)| e)
}

/// `DashMap::iter`: the keys of the map, each once, in no stated order.
#[verifier::external_body]
fn cache_map_keys(m: &CacheMap) -> (r: Vec<String>)
    ensures
        forall|i: int| 0 <= i < r@.len() ==> cache_map_contents(*m).contains_key(#[trigger] r@[i]@),
        forall|k: Seq<char>| cache_map_contents(*m).contains_key(k) ==> exists|i: int| 0 <= i < r@.len() && #[trigger] r@[i]@ == k,
        forall|i: int, j: int| 0 <= i < j < r@.len() ==> r@[i]@ != r@[j]@,
{
    m.iter().map(|e| e.key().clone()).collect()
}

/// Whether an entry with this expiry time has expired at time `now`.
pub open spec fn expired(expires_at: Option<u64>, now: u64) -> bool {
    match expires_at {
        Some(e) => now > e,
        None => false,
    }
}

/// The value a read of `key` sees at time `now`: the stored value unless it expired.
pub open spec fn live_value(m: Map<Seq<char>, CacheEntryView>, key: Seq<char>, now: u64) -> Option<Seq<u8>> {
    if m.contains_key(key) && !expired(m[key].1, now) {
        Some(m[key].0)
    } else {
        None
    }
}

/// The entries that remain after a read of `key` at `now`: an expired entry is dropped.
pub open spec fn after_read(m: Map<Seq<char>, CacheEntryView>, key: Seq<char>, now: u64) -> Map<Seq<char>, CacheEntryView> {
    if m.contains_key(key) && expired(m[key].1, now) {
        m.remove(key)
    } else {
        m
    }
}

/// The entries of `m` that have not expired at `now`.
pub open spec fn unexpired(m: Map<Seq<char>, CacheEntryView>, now: u64) -> Map<Seq<char>, CacheEntryView> {
    m.restrict(m.dom().filter(|k: Seq<char>| !expired(m[k].1, now)))
}

/// The expiry time of an entry stored at `now` with a lifetime of `ttl` nanoseconds
/// (the largest time where the sum does not fit).
pub open spec fn expiry_time(now: u64, ttl: u64) -> u64 {
    if now + ttl > u64::MAX {
        u64::MAX
    } else {
        (now + ttl) as u64
    }
}

/// Simple in-memory cache with optional time-to-live per entry.
pub struct MemoryCache {
    data: CacheMap,
    origin: Instant,
}

impl View for MemoryCache {
    type V = Map<Seq<char>, CacheEntryView>;

    closed spec fn view(&self) -> Map<Seq<char>, CacheEntryView> {
        cache_map_contents(self.data)
    }
}

/// Whole nanoseconds of a duration, or `u64::MAX` where they do not fit.
pub open spec fn clamped_nanos(d: Duration) -> u64 {
    if duration_total_nanos(d) > u64::MAX {
        u64::MAX
    } else {
        duration_total_nanos(d) as u64
    }
}

/// Whole nanoseconds of a duration, or `u64::MAX` where they do not fit.
fn duration_nanos(d: &Duration) -> (r: u64)
    ensures
        r == clamped_nanos(*d),
{
    let n: u128 = d.as_nanos();
    if n > 18446744073709551615u128 {
        u64::MAX
    } else {
        n as u64
    }
}

impl MemoryCache {
    /// An empty cache whose clock starts now.
    pub fn new() -> (c: MemoryCache)
        ensures
            c@ == Map::<Seq<char>, CacheEntryView>::empty(),
    {
        MemoryCache { data: cache_map_new(), origin: Instant::now() }
    }

    /// Nanoseconds since the cache was created, by the monotonic clock.
    pub fn now(&self) -> u64 {
        let d = self.origin.elapsed();
        duration_nanos(&d)
    }

    /// Reads `key` at time `now`; an expired entry is removed and reads as absent.
    pub fn get_at(&mut self, key: &str, now: u64) -> (r: Option<Vec<u8>>)
        ensures
            match r {
                Some(v) => live_value(old(self)@, key@, now) == Some(v@),
                None => live_value(old(self)@, key@, now) is None,
            },
            final(self)@ == after_read(old(self)@, key@, now),
    {
        match cache_map_get(&self.data, key) {
            Some(entry) => {
                let (value, expires_at) = entry;
                match expires_at {
                    Some(e) => {
                        if now > e {
                            let _ = cache_map_remove(&mut self.data, key);
                            return None;
                        }
                    },
                    None => {},
                }
                Some(value)
            },
            None => None,
        }
    }

    /// Reads `key` now; an expired entry is removed and reads as absent.
    pub fn get(&mut self, key: &str) -> (r: Option<Vec<u8>>)
        ensures
            exists|now: u64| {
                &&& match r {
                    Some(v) => live_value(old(self)@, key@, now) == Some(v@),
                    None => live_value(old(self)@, key@, now) is None,
                }
                &&& final(self)@ == after_read(old(self)@, key@, now)
            },
    {
        let now = self.now();
        self.get_at(key, now)
    }

    /// Stores `value` under `key` with no expiry.
    pub fn set(&mut self, key: String, value: Vec<u8>)
        ensures
            final(self)@ == old(self)@.insert(key@, (value@, None)),
    {
        cache_map_insert(&mut self.data, key, (value, None));
    }

    /// Stores `value` under `key`, stored at `now` and expiring `ttl` nanoseconds later.
    pub fn set_with_ttl_at(&mut self, key: String, value: Vec<u8>, ttl: u64, now: u64)
        ensures
            final(self)@ == old(self)@.insert(key@, (value@, Some(expiry_time(now, ttl)))),
    {
        let expires_at = now.saturating_add(ttl);
        cache_map_insert(&mut self.data, key, (value, Some(expires_at)));
    }

    /// Stores `value` under `key`, expiring `ttl` after now.
    pub fn set_with_ttl(&mut self, key: String, value: Vec<u8>, ttl: Duration)
        ensures
            exists|now: u64|
                final(self)@ == old(self)@.insert(key@, (value@, Some(#[trigger] expiry_time(now, clamped_nanos(ttl))))),
    {
        let nanos = duration_nanos(&ttl);
        let now = self.now();
        self.set_with_ttl_at(key, value, nanos, now);
    }

    /// Removes the entry under `key`, if any.
    pub fn delete(&mut self, key: &str)
        ensures
            final(self)@ == old(self)@.remove(key@),
    {
        let _ = cache_map_remove(&mut self.data, key);
    }

    /// Whether a read of `key` at `now` sees a value (an expired entry is removed).
    pub fn key_exists_at(&mut self, key: &str, now: u64) -> (r: bool)
        ensures
            r == live_value(old(self)@, key@, now) is Some,
            final(self)@ == after_read(old(self)@, key@, now),
    {
        self.get_at(key, now).is_some()
    }

    /// Whether a read of `key` now sees a value (an expired entry is removed).
    pub fn key_exists(&mut self, key: &str) -> (r: bool)
        ensures
            exists|now: u64| {
                &&& r == live_value(old(self)@, key@, now) is Some
                &&& final(self)@ == after_read(old(self)@, key@, now)
            },
    {
        let now = self.now();
        self.key_exists_at(key, now)
    }

    /// Reads and removes the entry under `key` at time `now`, in one step: the entry
    /// is gone afterwards, and its value is handed out unless it has expired.
    pub fn take_at(&mut self, key: &str, now: u64) -> (r: Option<Vec<u8>>)
        ensures
            final(self)@ == old(self)@.remove(key@),
            match r {
                Some(v) => live_value(old(self)@, key@, now) == Some(v@),
                None => live_value(old(self)@, key@, now) is None,
            },
    {
        match cache_map_remove(&mut self.data, key) {
            Some(e) => {
                match e.1 {
                    Some(t) => {
                        if now > t {
                            return None;
                        }
                    },
                    None => {},
                }
                Some(e.0)
            },
            None => None,
        }
    }

    /// Gets and deletes `key` now: the entry is gone afterwards, and its value is
    /// handed out unless it has expired.
    pub fn take(&mut self, key: &str) -> (r: Option<Vec<u8>>)
        ensures
            final(self)@ == old(self)@.remove(key@),
            exists|now: u64| match r {
                Some(v) => live_value(old(self)@, key@, now) == Some(v@),
                None => live_value(old(self)@, key@, now) is None,
            },
    {
        let now = self.now();
        self.take_at(key, now)
    }

    /// Removes every entry that has expired at `now`.
    pub fn remove_expired_at(&mut self, now: u64)
        ensures
            final(self)@ == unexpired(old(self)@, now),
    {
        let ghost start = self@;
        let keys = cache_map_keys(&self.data);
        let mut i: usize = 0;
        while i < keys.len()
            invariant
                i <= keys@.len(),
                forall|a: int, b: int| 0 <= a < b < keys@.len() ==> keys@[a]@ != keys@[b]@,
                forall|a: int| 0 <= a < keys@.len() ==> start.contains_key(#[trigger] keys@[a]@),
                forall|k: Seq<char>| start.contains_key(k) ==> exists|a: int| 0 <= a < keys@.len() && #[trigger] keys@[a]@ == k,
                forall|k: Seq<char>| #[trigger] self@.contains_key(k) ==> start.contains_key(k) && self@[k] == start[k],
                forall|k: Seq<char>| start.contains_key(k) && !expired(start[k].1, now) ==> #[trigger] self@.contains_key(k),
                forall|k: Seq<char>| start.contains_key(k) && expired(start[k].1, now) && #[trigger] self@.contains_key(k)
                    ==> exists|a: int| i <= a < keys@.len() && #[trigger] keys@[a]@ == k,
            decreases keys@.len() - i,
        {
            let key = &keys[i];
            let ghost before = self@;
            match cache_map_get(&self.data, key.as_str()) {
                Some(entry) => {
                    match entry.1 {
                        Some(e) => {
                            if now > e {
                                let _ = cache_map_remove(&mut self.data, key.as_str());
                            }
                        },
                        None => {},
                    }
                },
                None => {},
            }
            assert forall|k: Seq<char>| start.contains_key(k) && expired(start[k].1, now) && #[trigger] self@.contains_key(k)
                implies exists|a: int| i + 1 <= a < keys@.len() && #[trigger] keys@[a]@ == k by {
                assert(before.contains_key(k));
                let a = choose|a: int| i <= a < keys@.len() && #[trigger] keys@[a]@ == k;
                if a == i {
                    assert(false);
                }
            }
            i = i + 1;
        }
        assert(self@ =~= unexpired(start, now));
    }

    /// Removes every entry that has expired by now.
    pub fn remove_expired(&mut self)
        ensures
            exists|now: u64| final(self)@ == unexpired(old(self)@, now),
    {
        let now = self.now();
        self.remove_expired_at(now);
    }
}


/// A read after a write without expiry sees the written value; other keys read as before.
pub proof fn lemma_read_after_set(
    m: Map<Seq<char>, CacheEntryView>,
    key: Seq<char>,
    value: Seq<u8>,
    other: Seq<char>,
    now: u64,
)
    ensures
        live_value(m.insert(key, (value, None)), key, now) == Some(value),
        other != key ==> live_value(m.insert(key, (value, None)), other, now) == live_value(m, other, now),
{
}

/// A value stored at `start` with a lifetime of `ttl` is seen up to its expiry time and not after.
pub proof fn lemma_read_after_set_with_ttl(
    m: Map<Seq<char>, CacheEntryView>,
    key: Seq<char>,
    value: Seq<u8>,
    start: u64,
    ttl: u64,
    now: u64,
)
    ensures
        now <= expiry_time(start, ttl) ==> live_value(
            m.insert(key, (value, Some(expiry_time(start, ttl)))),
            key,
            now,
        ) == Some(value),
        now > expiry_time(start, ttl) ==> live_value(
            m.insert(key, (value, Some(expiry_time(start, ttl)))),
            key,
            now,
        ) is None,
        start + ttl <= u64::MAX && now <= start + ttl ==> live_value(
            m.insert(key, (value, Some(expiry_time(start, ttl)))),
            key,
            now,
        ) == Some(value),
{
}

/// After a delete or a take, a read of the key sees nothing; other keys read as before.
pub proof fn lemma_read_after_delete(m: Map<Seq<char>, CacheEntryView>, key: Seq<char>, other: Seq<char>, now: u64)
    ensures
        live_value(m.remove(key), key, now) is None,
        other != key ==> live_value(m.remove(key), other, now) == live_value(m, other, now),
{
}

/// Dropping expired entries, by a read or by a sweep at time `t`, changes what no
/// read at `t` or later sees, since time does not go back.
pub proof fn lemma_sweep_keeps_reads(
    m: Map<Seq<char>, CacheEntryView>,
    key: Seq<char>,
    other: Seq<char>,
    t: u64,
    later: u64,
)
    requires
        t <= later,
    ensures
        live_value(unexpired(m, t), other, later) == live_value(m, other, later),
        live_value(after_read(m, key, t), other, later) == live_value(m, other, later),
{
}

} // verus!
