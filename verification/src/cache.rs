//! A bounded cache with time-to-live expiry and eviction by a score that
//! weighs how often and how recently an entry was read.
//!
//! Time is a count of nanoseconds on the cache's own monotonic clock. Every
//! operation that depends on time comes in two forms: one that takes the time
//! as an argument and whose contract is exact, and one that reads the clock
//! and then does the same.

use crate::clock::{monotonic_now, NANOS_PER_SECOND};
use crate::digest::{hex, sha256, sha256_hex};
use crate::store::KeyedStore;
use std::time::Instant;
use vstd::prelude::*;
use vstd::string::StringSliceAdditionalSpecFns;

verus! {

/// A cached value with its bookkeeping.
pub struct CacheEntry<T> {
    /// The payload.
    pub value: T,
    /// When the entry was written.
    pub created_at: u64,
    /// When the entry was last read, or written if it was never read.
    pub accessed_at: u64,
    /// One for the write, and one more for each read.
    pub access_count: u64,
}

impl<T> CacheEntry<T> {
    /// An entry was not read before it was written, and the write counts as
    /// its first access.
    pub open spec fn well_formed(&self) -> bool {
        self.created_at <= self.accessed_at && self.access_count >= 1
    }

    /// The time since the entry was written; zero at a time before that.
    pub open spec fn age(&self, now: u64) -> int {
        if now >= self.created_at {
            now - self.created_at
        } else {
            0
        }
    }

    /// Whether the entry is older than `ttl` seconds. Without a time-to-live
    /// nothing expires.
    pub open spec fn expired(&self, ttl: Option<u64>, now: u64) -> bool {
        match ttl {
            Some(seconds) => self.age(now) > seconds * NANOS_PER_SECOND,
            None => false,
        }
    }

    /// The whole seconds since the entry was last accessed, counted as one
    /// where less than a second has passed.
    pub open spec fn idle_seconds(&self, now: u64) -> int {
        let idle = if now >= self.accessed_at {
            (now - self.accessed_at) / (NANOS_PER_SECOND as int)
        } else {
            0
        };
        if idle < 1 {
            1
        } else {
            idle
        }
    }

    /// Whether this entry's score, `access_count / idle_seconds`, is at most
    /// the other's. The quotients are compared exactly, by their cross
    /// products.
    pub open spec fn scores_at_most(&self, other: &CacheEntry<T>, now: u64) -> bool {
        self.access_count * other.idle_seconds(now) <= other.access_count * self.idle_seconds(now)
    }

    /// The entry after a read at `now`.
    pub open spec fn touched(self, now: u64) -> CacheEntry<T> {
        CacheEntry {
            value: self.value,
            created_at: self.created_at,
            accessed_at: now,
            access_count: (self.access_count + 1) as u64,
        }
    }

    /// The entry that a write of `value` at `now` makes.
    pub open spec fn fresh(value: T, now: u64) -> CacheEntry<T> {
        CacheEntry { value, created_at: now, accessed_at: now, access_count: 1 }
    }

    /// Whether the entry is older than `ttl` seconds at `now`.
    pub fn is_expired(&self, ttl: Option<u64>, now: u64) -> (dead: bool)
        ensures
            dead == self.expired(ttl, now),
    {
        match ttl {
            Some(seconds) => {
                let age: u64 = if now >= self.created_at {
                    now - self.created_at
                } else {
                    0
                };
                assert(seconds * NANOS_PER_SECOND <= u64::MAX * NANOS_PER_SECOND) by (nonlinear_arith)
                    requires
                        seconds <= u64::MAX,
                ;
                (age as u128) > (seconds as u128) * (NANOS_PER_SECOND as u128)
            },
            None => false,
        }
    }

    /// The idle time that the score divides by.
    pub fn idle_secs(&self, now: u64) -> (idle: u64)
        ensures
            idle == self.idle_seconds(now),
            idle >= 1,
    {
        let idle: u64 = if now >= self.accessed_at {
            (now - self.accessed_at) / NANOS_PER_SECOND
        } else {
            0
        };
        if idle < 1 {
            1
        } else {
            idle
        }
    }

    /// Compares two scores at `now`.
    pub fn score_at_most(&self, other: &CacheEntry<T>, now: u64) -> (lower: bool)
        ensures
            lower == self.scores_at_most(other, now),
    {
        let mine: u64 = self.idle_secs(now);
        let theirs: u64 = other.idle_secs(now);
        assert(self.access_count * theirs <= u64::MAX * u64::MAX) by (nonlinear_arith)
            requires
                self.access_count <= u64::MAX,
                theirs <= u64::MAX,
        ;
        assert(other.access_count * mine <= u64::MAX * u64::MAX) by (nonlinear_arith)
            requires
                other.access_count <= u64::MAX,
                mine <= u64::MAX,
        ;
        (self.access_count as u128) * (theirs as u128) <= (other.access_count as u128) * (mine as u128)
    }
}

/// Scores are ordered: an entry that scores at most a second, which scores at
/// most a third, scores at most the third.
pub proof fn lemma_scores_chain<T>(a: &CacheEntry<T>, b: &CacheEntry<T>, c: &CacheEntry<T>, now: u64)
    requires
        a.scores_at_most(b, now),
        b.scores_at_most(c, now),
    ensures
        a.scores_at_most(c, now),
{
    let (ca, cb, cc) = (a.access_count as int, b.access_count as int, c.access_count as int);
    let (ia, ib, ic) = (a.idle_seconds(now), b.idle_seconds(now), c.idle_seconds(now));
    assert(ca * ic <= cc * ia) by (nonlinear_arith)
        requires
            ca * ib <= cb * ia,
            cb * ic <= cc * ib,
            ia >= 1,
            ib >= 1,
            ic >= 1,
            ca >= 0,
            cb >= 0,
            cc >= 0,
    ;
}

/// The counters of a cache, with its size at the moment they were read.
#[derive(Clone, Copy, Debug, PartialEq, Eq, Structural)]
pub struct CacheStats {
    /// Lookups that found a live entry.
    pub hits: u64,
    /// Lookups that found nothing, or an expired entry.
    pub misses: u64,
    /// Entries that were removed to make room.
    pub evictions: u64,
    /// The number of entries held.
    pub size: usize,
    /// The capacity that the cache was made with.
    pub max_size: usize,
}

impl CacheStats {
    /// The share of lookups that hit, in parts per million, rounded down;
    /// zero before the first lookup.
    pub open spec fn hit_rate(&self) -> int {
        if self.hits + self.misses == 0 {
            0
        } else {
            self.hits * 1_000_000 / (self.hits + self.misses)
        }
    }

    /// The share of lookups that hit, in parts per million.
    pub fn hit_rate_ppm(&self) -> (rate: u32)
        ensures
            rate == self.hit_rate(),
            rate <= 1_000_000,
    {
        let lookups: u128 = (self.hits as u128) + (self.misses as u128);
        if lookups == 0 {
            0
        } else {
            assert(self.hits * 1_000_000 <= u64::MAX * 1_000_000) by (nonlinear_arith)
                requires
                    self.hits <= u64::MAX,
            ;
            let scaled: u128 = (self.hits as u128) * 1_000_000;
            assert(scaled / lookups <= 1_000_000) by (nonlinear_arith)
                requires
                    scaled == self.hits * 1_000_000,
                    lookups >= self.hits,
                    lookups > 0,
            ;
            (scaled / lookups) as u32
        }
    }
}

/// A cache from string keys to values of `T`.
pub struct Cache<T> {
    store: KeyedStore<CacheEntry<T>>,
    max_size: usize,
    ttl_seconds: Option<u64>,
    hits: u64,
    misses: u64,
    evictions: u64,
    origin: Instant,
    latest: u64,
}

impl<T> Cache<T> {
    /// The entries that the cache holds.
    pub closed spec fn entries(&self) -> Map<Seq<char>, CacheEntry<T>> {
        self.store@
    }

    /// The capacity that the cache was made with.
    pub closed spec fn capacity(&self) -> usize {
        self.max_size
    }

    /// The time-to-live in seconds, if entries expire.
    pub closed spec fn ttl(&self) -> Option<u64> {
        self.ttl_seconds
    }

    /// The number of lookups that hit.
    pub closed spec fn hits(&self) -> u64 {
        self.hits
    }

    /// The number of lookups that missed.
    pub closed spec fn misses(&self) -> u64 {
        self.misses
    }

    /// The number of evictions.
    pub closed spec fn evictions(&self) -> u64 {
        self.evictions
    }

    /// The time of the latest operation that took a time.
    pub closed spec fn now(&self) -> u64 {
        self.latest
    }

    /// The most entries that the cache holds at once: its capacity, or one
    /// where the capacity is zero.
    pub open spec fn bound(&self) -> int {
        if self.capacity() == 0 {
            1
        } else {
            self.capacity() as int
        }
    }

    /// The invariant of the cache. Its consequences for a caller are stated by
    /// `lemma_well_formed`.
    pub closed spec fn well_formed(&self) -> bool {
        &&& self.store.well_formed()
        &&& self.store.keys().len() <= self.bound()
        &&& forall|i: int|
            0 <= i < self.store.values().len() ==> {
                &&& (#[trigger] self.store.values()[i]).well_formed()
                &&& self.store.values()[i].accessed_at <= self.latest
                &&& self.store.values()[i].access_count <= self.hits + 1
            }
    }

    /// Whether a lookup of `key` at `now` finds a live entry.
    pub open spec fn finds(&self, key: Seq<char>, now: u64) -> bool {
        self.entries().contains_key(key) && !self.entries()[key].expired(self.ttl(), now)
    }

    /// Whether a lookup of `key` at `now` can be counted: the counter that
    /// it moves, of hits or of misses, is not at its end, nor is the access
    /// count of the entry that it finds.
    pub open spec fn can_count_lookup_at(&self, key: Seq<char>, now: u64) -> bool {
        if self.finds(key, now) {
            self.hits() < u64::MAX && self.entries()[key].access_count < u64::MAX
        } else {
            self.misses() < u64::MAX
        }
    }

    /// Whether a lookup of `key` can be counted at whatever time the clock
    /// shows.
    pub open spec fn can_count_lookup(&self, key: Seq<char>) -> bool {
        forall|now: u64| self.now() <= now ==> #[trigger] self.can_count_lookup_at(key, now)
    }

    /// Whether a write of `key` can be counted: where it has to evict, the
    /// counter of evictions is not at its end.
    pub open spec fn can_count_write(&self, key: Seq<char>) -> bool {
        self.must_evict(key) ==> self.evictions() < u64::MAX
    }

    /// Whether a write of `key` has to evict first: the key is new and the
    /// cache holds an entry for each place it has.
    pub open spec fn must_evict(&self, key: Seq<char>) -> bool {
        &&& !self.entries().contains_key(key)
        &&& self.entries().len() >= self.capacity()
        &&& self.entries().len() > 0
    }

    /// Whether `victim` may be evicted at `now`: the cache holds it, and no
    /// entry scores lower.
    pub open spec fn may_evict(&self, victim: Seq<char>, now: u64) -> bool {
        &&& self.entries().contains_key(victim)
        &&& forall|k: Seq<char>| #[trigger]
            self.entries().contains_key(k) ==> self.entries()[victim].scores_at_most(
                &self.entries()[k],
                now,
            )
    }

    /// The keys whose entries have expired at `now`.
    pub open spec fn expired_keys(&self, now: u64) -> Set<Seq<char>> {
        Set::new(
            |k: Seq<char>| self.entries().contains_key(k) && self.entries()[k].expired(self.ttl(), now),
        )
    }

    /// The entries that have not expired at `now`.
    pub open spec fn live_entries(&self, now: u64) -> Map<Seq<char>, CacheEntry<T>> {
        self.entries().remove_keys(self.expired_keys(now))
    }

    /// What holds of every well-formed cache: it holds finitely many entries,
    /// no more than its bound; no entry was read before it was written or
    /// after the cache's latest time; and no entry was read more often than
    /// the cache counted hits.
    pub proof fn lemma_well_formed(&self)
        requires
            self.well_formed(),
        ensures
            self.entries().dom().finite(),
            self.entries().len() <= self.bound(),
            forall|k: Seq<char>| #[trigger]
                self.entries().contains_key(k) ==> {
                    &&& self.entries()[k].well_formed()
                    &&& self.entries()[k].accessed_at <= self.now()
                    &&& self.entries()[k].access_count <= self.hits() + 1
                },
    {
        self.store.lemma_slots_are_the_map();
        assert forall|k: Seq<char>| #[trigger] self.entries().contains_key(k) implies {
            &&& self.entries()[k].well_formed()
            &&& self.entries()[k].accessed_at <= self.now()
            &&& self.entries()[k].access_count <= self.hits() + 1
        } by {
            let i = self.store.position_of(k).unwrap();
            assert(self.store.values()[i].well_formed());
        }
    }

    /// An empty cache for at most `max_size` entries, which expire after
    /// `ttl_seconds` seconds if that is given. A cache made for no entry
    /// holds one.
    pub fn new(max_size: usize, ttl_seconds: Option<u64>) -> (cache: Self)
        ensures
            cache.well_formed(),
            cache.entries() == Map::<Seq<char>, CacheEntry<T>>::empty(),
            cache.capacity() == max_size,
            cache.ttl() == ttl_seconds,
            cache.hits() == 0,
            cache.misses() == 0,
            cache.evictions() == 0,
            cache.now() == 0,
    {
        Cache {
            store: KeyedStore::new(),
            max_size,
            ttl_seconds,
            hits: 0,
            misses: 0,
            evictions: 0,
            origin: Instant::now(),
            latest: 0,
        }
    }

    /// Whether the cache holds `key`, expired or not.
    pub fn contains_key(&self, key: &str) -> (held: bool)
        ensures
            held == self.entries().contains_key(key@),
    {
        self.store.contains_key(key)
    }

    /// The entry under `key` with its bookkeeping, if the cache holds the
    /// key. Nothing is counted and nothing changes.
    pub fn peek(&self, key: &str) -> (entry: Option<&CacheEntry<T>>)
        requires
            self.well_formed(),
        ensures
            match entry {
                Some(held) => self.entries().contains_key(key@) && *held == self.entries()[key@],
                None => !self.entries().contains_key(key@),
            },
    {
        self.store.get(key)
    }

    /// The number of entries held.
    pub fn size(&self) -> (n: usize)
        requires
            self.well_formed(),
        ensures
            n == self.entries().len(),
            n <= self.bound(),
    {
        proof {
            self.store.lemma_slots_are_the_map();
        }
        self.store.len()
    }

    /// Whether the cache holds no entry.
    pub fn is_empty(&self) -> (empty: bool)
        requires
            self.well_formed(),
        ensures
            empty == (self.entries().len() == 0),
            empty == (self.entries() == Map::<Seq<char>, CacheEntry<T>>::empty()),
    {
        proof {
            self.store.lemma_slots_are_the_map();
            if self.entries().len() == 0 {
                assert(self.entries().dom() =~= Set::empty());
                assert(self.entries() =~= Map::<Seq<char>, CacheEntry<T>>::empty());
            }
        }
        self.store.len() == 0
    }

    /// The counters, with the size as it is.
    pub open spec fn spec_stats(&self) -> CacheStats {
        CacheStats {
            hits: self.hits(),
            misses: self.misses(),
            evictions: self.evictions(),
            size: self.entries().len() as usize,
            max_size: self.capacity(),
        }
    }

    /// The counters, with the size as it is now.
    pub fn get_stats(&self) -> (stats: CacheStats)
        requires
            self.well_formed(),
        ensures
            stats == self.spec_stats(),
            stats.size <= self.bound(),
    {
        proof {
            self.store.lemma_slots_are_the_map();
        }
        CacheStats {
            hits: self.hits,
            misses: self.misses,
            evictions: self.evictions,
            size: self.store.len(),
            max_size: self.max_size,
        }
    }

    /// Takes `key` out of the cache and hands back its value, if the cache
    /// holds the key. The counters stay as they are.
    pub fn remove(&mut self, key: &str) -> (previous: Option<T>)
        requires
            old(self).well_formed(),
        ensures
            final(self).well_formed(),
            final(self).entries() == old(self).entries().remove(key@),
            previous == (if old(self).entries().contains_key(key@) {
                Some(old(self).entries()[key@].value)
            } else {
                None
            }),
            final(self).same_settings(old(self)),
            final(self).same_counters(old(self)),
            final(self).now() == old(self).now(),
    {
        match self.store.position(key) {
            Some(i) => {
                let removed = self.store.remove_at(i);
                Some(removed.1.value)
            },
            None => {
                assert(self.entries() =~= old(self).entries().remove(key@));
                None
            },
        }
    }

    /// Takes every entry out of the cache. The counters stay as they are.
    pub fn clear(&mut self)
        requires
            old(self).well_formed(),
        ensures
            final(self).well_formed(),
            final(self).entries() == Map::<Seq<char>, CacheEntry<T>>::empty(),
            final(self).same_settings(old(self)),
            final(self).same_counters(old(self)),
            final(self).now() == old(self).now(),
    {
        self.store.clear();
    }

    /// The capacity and the time-to-live are those of `other`.
    pub open spec fn same_settings(&self, other: &Self) -> bool {
        self.capacity() == other.capacity() && self.ttl() == other.ttl()
    }

    /// The three counters are those of `other`.
    pub open spec fn same_counters(&self, other: &Self) -> bool {
        &&& self.hits() == other.hits()
        &&& self.misses() == other.misses()
        &&& self.evictions() == other.evictions()
    }
}

impl<T: Clone> Cache<T> {
    /// What a lookup of `key` at `now` makes of a cache and what it returns.
    ///
    /// A key that is not held, or whose entry has expired, is a miss and gives
    /// `None`; the expired entry leaves the cache. A live entry is a hit: its
    /// access time and count move on, and a clone of its value is returned.
    pub open spec fn looked_up(pre: &Self, key: Seq<char>, now: u64, post: &Self, found: Option<T>) -> bool {
        &&& post.same_settings(pre)
        &&& post.evictions() == pre.evictions()
        &&& post.now() == now
        &&& if !pre.entries().contains_key(key) {
            &&& found is None
            &&& post.entries() == pre.entries()
            &&& post.hits() == pre.hits()
            &&& post.misses() == pre.misses() + 1
        } else if pre.entries()[key].expired(pre.ttl(), now) {
            &&& found is None
            &&& post.entries() == pre.entries().remove(key)
            &&& post.hits() == pre.hits()
            &&& post.misses() == pre.misses() + 1
        } else {
            &&& found is Some
            &&& cloned(pre.entries()[key].value, found.unwrap())
            &&& post.entries() == pre.entries().insert(key, pre.entries()[key].touched(now))
            &&& post.hits() == pre.hits() + 1
            &&& post.misses() == pre.misses()
        }
    }

    /// A lookup at some time that is not before the cache's latest.
    pub open spec fn looked_up_at_some_time(pre: &Self, key: Seq<char>, post: &Self, found: Option<T>) -> bool {
        exists|now: u64| pre.now() <= now && #[trigger] Self::looked_up(pre, key, now, post, found)
    }

    /// Counts a lookup, as a hit or as a miss.
    fn update_stats(&mut self, hit: bool)
        requires
            hit ==> old(self).hits < u64::MAX,
            !hit ==> old(self).misses < u64::MAX,
        ensures
            final(self).hits == old(self).hits + if hit {
                1int
            } else {
                0int
            },
            final(self).misses == old(self).misses + if hit {
                0int
            } else {
                1int
            },
            final(self).store == old(self).store,
            final(self).max_size == old(self).max_size,
            final(self).ttl_seconds == old(self).ttl_seconds,
            final(self).evictions == old(self).evictions,
            final(self).latest == old(self).latest,
    {
        if hit {
            self.hits = self.hits + 1;
        } else {
            self.misses = self.misses + 1;
        }
    }

    /// Looks `key` up at the time `now`.
    pub fn get_at(&mut self, key: &str, now: u64) -> (found: Option<T>)
        requires
            old(self).well_formed(),
            old(self).now() <= now,
            old(self).can_count_lookup_at(key@, now),
        ensures
            final(self).well_formed(),
            Self::looked_up(old(self), key@, now, final(self), found),
    {
        self.latest = now;
        match self.store.position(key) {
            None => {
                self.update_stats(false);
                assert(self.entries() =~= old(self).entries());
                None
            },
            Some(i) => {
                assert(self.store.values()[i as int].well_formed());
                let dead = self.store.value_at(i).is_expired(self.ttl_seconds, now);
                if dead {
                    let _ = self.store.remove_at(i);
                    self.update_stats(false);
                    None
                } else {
                    let entry = self.store.value_at_mut(i);
                    entry.accessed_at = now;
                    entry.access_count = entry.access_count + 1;
                    let value = entry.value.clone();
                    self.update_stats(true);
                    assert(self.entries() =~= old(self).entries().insert(
                        key@,
                        old(self).entries()[key@].touched(now),
                    ));
                    Some(value)
                }
            },
        }
    }

    /// Looks `key` up at the time that the cache's clock shows.
    pub fn get(&mut self, key: &str) -> (found: Option<T>)
        requires
            old(self).well_formed(),
            old(self).can_count_lookup(key@),
        ensures
            final(self).well_formed(),
            Self::looked_up_at_some_time(old(self), key@, final(self), found),
    {
        let now = monotonic_now(&self.origin, self.latest);
        self.get_at(key, now)
    }
}

impl<T> Cache<T> {
    /// What a write of `value` under `key` at `now` makes of a cache.
    ///
    /// Where the key is new and the cache is full, one entry that no other
    /// entry scores below leaves first, and the eviction is counted. Which of
    /// several entries with the lowest score leaves is not fixed. The written
    /// entry is fresh: an earlier entry under the key is replaced with its
    /// age and access count.
    pub open spec fn stored(pre: &Self, key: Seq<char>, value: T, now: u64, post: &Self) -> bool {
        &&& post.same_settings(pre)
        &&& post.hits() == pre.hits()
        &&& post.misses() == pre.misses()
        &&& post.now() == now
        &&& if pre.must_evict(key) {
            &&& post.evictions() == pre.evictions() + 1
            &&& exists|victim: Seq<char>| #[trigger]
                pre.may_evict(victim, now) && post.entries() == pre.entries().remove(victim).insert(
                    key,
                    CacheEntry::fresh(value, now),
                )
        } else {
            &&& post.evictions() == pre.evictions()
            &&& post.entries() == pre.entries().insert(key, CacheEntry::fresh(value, now))
        }
    }

    /// A write at some time that is not before the cache's latest.
    pub open spec fn stored_at_some_time(pre: &Self, key: Seq<char>, value: T, post: &Self) -> bool {
        exists|now: u64| pre.now() <= now && #[trigger] Self::stored(pre, key, value, now, post)
    }

    /// The slot of an entry that no other entry scores below at `now`: the
    /// first such slot.
    fn pick_victim(&self, now: u64) -> (best: usize)
        requires
            self.store.well_formed(),
            self.store.keys().len() > 0,
        ensures
            best < self.store.keys().len(),
            forall|j: int|
                0 <= j < self.store.values().len() ==> self.store.values()[best as int].scores_at_most(
                    &#[trigger] self.store.values()[j],
                    now,
                ),
    {
        let n = self.store.len();
        let mut best: usize = 0;
        let mut i: usize = 1;
        while i < n
            invariant
                1 <= i <= n,
                best < i,
                n == self.store.keys().len(),
                n == self.store.values().len(),
                forall|j: int|
                    0 <= j < i ==> self.store.values()[best as int].scores_at_most(
                        &#[trigger] self.store.values()[j],
                        now,
                    ),
            decreases n - i,
        {
            if !self.store.value_at(best).score_at_most(self.store.value_at(i), now) {
                proof {
                    let values = self.store.values();
                    assert forall|j: int| 0 <= j < i + 1 implies values[i as int].scores_at_most(
                        &#[trigger] values[j],
                        now,
                    ) by {
                        if j < i {
                            lemma_scores_chain(&values[i as int], &values[best as int], &values[j], now);
                        }
                    }
                }
                best = i;
            }
            i = i + 1;
        }
        best
    }

    /// Removes one entry that no other entry scores below, and counts the
    /// eviction.
    fn evict_lru(&mut self, now: u64)
        requires
            old(self).well_formed(),
            old(self).entries().len() > 0,
            old(self).evictions() < u64::MAX,
        ensures
            final(self).well_formed(),
            final(self).same_settings(old(self)),
            final(self).hits() == old(self).hits(),
            final(self).misses() == old(self).misses(),
            final(self).now() == old(self).now(),
            final(self).evictions() == old(self).evictions() + 1,
            final(self).entries().len() == old(self).entries().len() - 1,
            exists|victim: Seq<char>| #[trigger]
                old(self).may_evict(victim, now) && final(self).entries() == old(self).entries().remove(
                    victim,
                ),
    {
        proof {
            self.store.lemma_slots_are_the_map();
        }
        let best = self.pick_victim(now);
        let ghost victim = self.store.keys()[best as int];
        proof {
            assert(self.store.position_of(victim) == Some(best as int));
            assert forall|k: Seq<char>| #[trigger] self.entries().contains_key(k) implies self.entries()[victim].scores_at_most(
                &self.entries()[k],
                now,
            ) by {
                let j = self.store.position_of(k).unwrap();
                assert(self.store.values()[best as int].scores_at_most(&self.store.values()[j], now));
            }
            assert(self.may_evict(victim, now));
        }
        let _ = self.store.remove_at(best);
        self.evictions = self.evictions + 1;
        proof {
            self.store.lemma_slots_are_the_map();
        }
    }

    /// Writes `value` under `key` at the time `now`.
    pub fn set_at(&mut self, key: &str, value: T, now: u64)
        requires
            old(self).well_formed(),
            old(self).now() <= now,
            old(self).can_count_write(key@),
        ensures
            final(self).well_formed(),
            Self::stored(old(self), key@, value, now, final(self)),
    {
        proof {
            self.store.lemma_slots_are_the_map();
        }
        let n = self.store.len();
        if n >= self.max_size && n > 0 && !self.store.contains_key(key) {
            self.evict_lru(now);
        }
        proof {
            self.store.lemma_slots_are_the_map();
        }
        self.latest = now;
        let _ = self.store.insert(
            key,
            CacheEntry { value, created_at: now, accessed_at: now, access_count: 1 },
        );
    }

    /// Writes `value` under `key` at the time that the cache's clock shows.
    pub fn set(&mut self, key: &str, value: T)
        requires
            old(self).well_formed(),
            old(self).can_count_write(key@),
        ensures
            final(self).well_formed(),
            Self::stored_at_some_time(old(self), key@, value, final(self)),
    {
        let now = monotonic_now(&self.origin, self.latest);
        self.set_at(key, value, now)
    }
}

impl<T> Cache<T> {
    /// What a sweep at `now` makes of a cache and what it returns: the
    /// expired entries leave, the others stay as they are, and the result is
    /// the number that left.
    pub open spec fn swept(pre: &Self, now: u64, post: &Self, removed: usize) -> bool {
        &&& post.same_settings(pre)
        &&& post.same_counters(pre)
        &&& post.now() == now
        &&& post.entries() == pre.live_entries(now)
        &&& removed == pre.expired_keys(now).len()
        &&& removed + post.entries().len() == pre.entries().len()
    }

    /// A sweep at some time that is not before the cache's latest.
    pub open spec fn swept_at_some_time(pre: &Self, post: &Self, removed: usize) -> bool {
        exists|now: u64| pre.now() <= now && #[trigger] Self::swept(pre, now, post, removed)
    }

    /// Removes every entry that has expired at the time `now` and returns how
    /// many there were. A cache without a time-to-live is left as it is.
    pub fn cleanup_expired_at(&mut self, now: u64) -> (removed: usize)
        requires
            old(self).well_formed(),
            old(self).now() <= now,
        ensures
            final(self).well_formed(),
            Self::swept(old(self), now, final(self), removed),
    {
        self.latest = now;
        let ghost pre = *old(self);
        let mut removed: usize = 0;
        let mut i: usize = 0;
        proof {
            self.store.lemma_slots_are_the_map();
        }
        if self.ttl_seconds.is_some() {
            while i < self.store.len()
                invariant
                    self.well_formed(),
                    pre.well_formed(),
                    self.same_settings(&pre),
                    self.same_counters(&pre),
                    self.now() == now,
                    i <= self.store.keys().len(),
                    removed + self.store.keys().len() == pre.store.keys().len(),
                    forall|k: Seq<char>| #[trigger]
                        self.entries().contains_key(k) ==> pre.entries().contains_key(k)
                            && self.entries()[k] == pre.entries()[k],
                    forall|k: Seq<char>|
                        pre.entries().contains_key(k) && !(#[trigger] self.entries().contains_key(k))
                            ==> pre.entries()[k].expired(pre.ttl(), now),
                    forall|j: int|
                        0 <= j < i ==> !(#[trigger] self.store.values()[j]).expired(pre.ttl(), now),
                decreases self.store.keys().len() - i,
            {
                if self.store.value_at(i).is_expired(self.ttl_seconds, now) {
                    let ghost before = self.entries();
                    let ghost gone = self.store.keys()[i as int];
                    proof {
                        assert(self.store.position_of(gone) == Some(i as int));
                        assert(before[gone] == self.store.values()[i as int]);
                        assert(self.entries().contains_key(gone));
                        assert(pre.entries()[gone].expired(pre.ttl(), now));
                    }
                    let _ = self.store.remove_at(i);
                    removed = removed + 1;
                    assert(self.entries() == before.remove(gone));
                    assert forall|k: Seq<char>|
                        pre.entries().contains_key(k) && !(#[trigger] self.entries().contains_key(
                            k,
                        )) implies pre.entries()[k].expired(pre.ttl(), now) by {
                        if k != gone {
                            assert(!before.contains_key(k));
                        }
                    }
                } else {
                    i = i + 1;
                }
            }
        }
        proof {
            self.store.lemma_slots_are_the_map();
            pre.store.lemma_slots_are_the_map();
            let gone = pre.expired_keys(now);
            assert forall|k: Seq<char>| #[trigger] self.entries().contains_key(k) implies !gone.contains(k) by {
                let j = self.store.position_of(k).unwrap();
                assert(!self.store.values()[j].expired(pre.ttl(), now));
            }
            assert(self.entries() =~= pre.live_entries(now));
            assert(gone =~= pre.entries().dom().difference(self.entries().dom()));
            assert(self.entries().dom().subset_of(pre.entries().dom()));
            vstd::set_lib::lemma_len_subset(self.entries().dom(), pre.entries().dom());
            vstd::set_lib::lemma_len_difference(pre.entries().dom(), self.entries().dom());
            vstd::set_lib::lemma_set_disjoint_lens(self.entries().dom(), gone);
            assert(self.entries().dom().union(gone) =~= pre.entries().dom());
        }
        removed
    }

    /// Removes every entry that has expired at the time that the cache's
    /// clock shows, and returns how many there were.
    pub fn cleanup_expired(&mut self) -> (removed: usize)
        requires
            old(self).well_formed(),
        ensures
            final(self).well_formed(),
            Self::swept_at_some_time(old(self), final(self), removed),
    {
        let now = monotonic_now(&self.origin, self.latest);
        self.cleanup_expired_at(now)
    }
}

/// The three caches of a service: one for analysed texts, one for numeric
/// series of type `D`, one for computed results. They share nothing.
pub struct Caches<D> {
    /// Analysed texts: 1000 entries that live for an hour.
    pub text: Cache<String>,
    /// Numeric series: 500 entries that live for half an hour.
    pub data: Cache<D>,
    /// Computed results: 2000 entries that live for two hours.
    pub result: Cache<String>,
}

impl<D> Caches<D> {
    /// Each of the three caches is well formed.
    pub open spec fn well_formed(&self) -> bool {
        self.text.well_formed() && self.data.well_formed() && self.result.well_formed()
    }

    /// Three empty caches with their capacities and times to live.
    pub fn new() -> (caches: Self)
        ensures
            caches.well_formed(),
            caches.text.capacity() == 1000 && caches.text.ttl() == Some(3600u64),
            caches.data.capacity() == 500 && caches.data.ttl() == Some(1800u64),
            caches.result.capacity() == 2000 && caches.result.ttl() == Some(7200u64),
            caches.text.entries() == Map::<Seq<char>, CacheEntry<String>>::empty(),
            caches.data.entries() == Map::<Seq<char>, CacheEntry<D>>::empty(),
            caches.result.entries() == Map::<Seq<char>, CacheEntry<String>>::empty(),
            caches.text.hits() == 0 && caches.text.misses() == 0 && caches.text.evictions() == 0,
            caches.data.hits() == 0 && caches.data.misses() == 0 && caches.data.evictions() == 0,
            caches.result.hits() == 0 && caches.result.misses() == 0 && caches.result.evictions() == 0,
    {
        Caches {
            text: Cache::new(1000, Some(3600)),
            data: Cache::new(500, Some(1800)),
            result: Cache::new(2000, Some(7200)),
        }
    }
}

/// Looks a key up in the text cache.
pub fn get_cached_text<D>(caches: &mut Caches<D>, key: &str) -> (found: Option<String>)
    requires
        old(caches).well_formed(),
        old(caches).text.can_count_lookup(key@),
    ensures
        final(caches).well_formed(),
        Cache::looked_up_at_some_time(&old(caches).text, key@, &final(caches).text, found),
        final(caches).data == old(caches).data,
        final(caches).result == old(caches).result,
{
    caches.text.get(key)
}

/// Writes a value into the text cache.
pub fn set_cached_text<D>(caches: &mut Caches<D>, key: &str, value: String)
    requires
        old(caches).well_formed(),
        old(caches).text.can_count_write(key@),
    ensures
        final(caches).well_formed(),
        Cache::stored_at_some_time(&old(caches).text, key@, value, &final(caches).text),
        final(caches).data == old(caches).data,
        final(caches).result == old(caches).result,
{
    caches.text.set(key, value)
}

/// Looks a key up in the cache of numeric series.
pub fn get_cached_data<D: Clone>(caches: &mut Caches<D>, key: &str) -> (found: Option<D>)
    requires
        old(caches).well_formed(),
        old(caches).data.can_count_lookup(key@),
    ensures
        final(caches).well_formed(),
        Cache::looked_up_at_some_time(&old(caches).data, key@, &final(caches).data, found),
        final(caches).text == old(caches).text,
        final(caches).result == old(caches).result,
{
    caches.data.get(key)
}

/// Writes a value into the cache of numeric series.
pub fn set_cached_data<D>(caches: &mut Caches<D>, key: &str, value: D)
    requires
        old(caches).well_formed(),
        old(caches).data.can_count_write(key@),
    ensures
        final(caches).well_formed(),
        Cache::stored_at_some_time(&old(caches).data, key@, value, &final(caches).data),
        final(caches).text == old(caches).text,
        final(caches).result == old(caches).result,
{
    caches.data.set(key, value)
}

/// Looks a key up in the result cache.
pub fn get_cached_result<D>(caches: &mut Caches<D>, key: &str) -> (found: Option<String>)
    requires
        old(caches).well_formed(),
        old(caches).result.can_count_lookup(key@),
    ensures
        final(caches).well_formed(),
        Cache::looked_up_at_some_time(&old(caches).result, key@, &final(caches).result, found),
        final(caches).text == old(caches).text,
        final(caches).data == old(caches).data,
{
    caches.result.get(key)
}

/// Writes a value into the result cache.
pub fn set_cached_result<D>(caches: &mut Caches<D>, key: &str, value: String)
    requires
        old(caches).well_formed(),
        old(caches).result.can_count_write(key@),
    ensures
        final(caches).well_formed(),
        Cache::stored_at_some_time(&old(caches).result, key@, value, &final(caches).result),
        final(caches).text == old(caches).text,
        final(caches).data == old(caches).data,
{
    caches.result.set(key, value)
}

/// Empties the three caches. Their counters stay as they are.
pub fn clear_all_caches<D>(caches: &mut Caches<D>)
    requires
        old(caches).well_formed(),
    ensures
        final(caches).well_formed(),
        final(caches).text.entries() == Map::<Seq<char>, CacheEntry<String>>::empty(),
        final(caches).data.entries() == Map::<Seq<char>, CacheEntry<D>>::empty(),
        final(caches).result.entries() == Map::<Seq<char>, CacheEntry<String>>::empty(),
        final(caches).text.same_counters(&old(caches).text) && final(caches).text.same_settings(
            &old(caches).text,
        ),
        final(caches).data.same_counters(&old(caches).data) && final(caches).data.same_settings(
            &old(caches).data,
        ),
        final(caches).result.same_counters(&old(caches).result) && final(caches).result.same_settings(
            &old(caches).result,
        ),
{
    caches.text.clear();
    caches.data.clear();
    caches.result.clear();
}

/// The counters of the three caches, under the names `text_cache`,
/// `data_cache` and `result_cache`, in that order.
pub fn get_cache_stats<D>(caches: &Caches<D>) -> (stats: Vec<(String, CacheStats)>)
    requires
        caches.well_formed(),
    ensures
        stats@.len() == 3,
        stats@[0].0@ == "text_cache"@ && stats@[0].1 == caches.text.spec_stats(),
        stats@[1].0@ == "data_cache"@ && stats@[1].1 == caches.data.spec_stats(),
        stats@[2].0@ == "result_cache"@ && stats@[2].1 == caches.result.spec_stats(),
{
    let mut stats: Vec<(String, CacheStats)> = Vec::new();
    stats.push(("text_cache".to_owned(), caches.text.get_stats()));
    stats.push(("data_cache".to_owned(), caches.data.get_stats()));
    stats.push(("result_cache".to_owned(), caches.result.get_stats()));
    stats
}

/// Sweeps the three caches and returns how many entries each lost, under the
/// names `text_cache`, `data_cache` and `result_cache`, in that order.
pub fn cleanup_all_caches<D>(caches: &mut Caches<D>) -> (removed: Vec<(String, usize)>)
    requires
        old(caches).well_formed(),
    ensures
        final(caches).well_formed(),
        removed@.len() == 3,
        removed@[0].0@ == "text_cache"@ && Cache::swept_at_some_time(
            &old(caches).text,
            &final(caches).text,
            removed@[0].1,
        ),
        removed@[1].0@ == "data_cache"@ && Cache::swept_at_some_time(
            &old(caches).data,
            &final(caches).data,
            removed@[1].1,
        ),
        removed@[2].0@ == "result_cache"@ && Cache::swept_at_some_time(
            &old(caches).result,
            &final(caches).result,
            removed@[2].1,
        ),
{
    let mut removed: Vec<(String, usize)> = Vec::new();
    let text = caches.text.cleanup_expired();
    removed.push(("text_cache".to_owned(), text));
    let data = caches.data.cleanup_expired();
    removed.push(("data_cache".to_owned(), data));
    let result = caches.result.cleanup_expired();
    removed.push(("result_cache".to_owned(), result));
    removed
}

/// The key under which the analysis of `text` is cached: `text_` and the
/// SHA-256 digest of the text in hexadecimal.
pub open spec fn text_cache_key(text: Seq<u8>) -> Seq<char> {
    "text_"@ + hex(sha256(text))
}

/// The key under which the analysis of `data` is cached: `data_` and the
/// SHA-256 digest of the data in hexadecimal.
pub open spec fn data_cache_key(data: Seq<u8>) -> Seq<char> {
    "data_"@ + hex(sha256(data))
}

/// The key under which the result of `operation` on `input` is cached:
/// `result_` and the SHA-256 digest, in hexadecimal, of the operation's name
/// followed by the input.
pub open spec fn result_cache_key(operation: Seq<u8>, input: Seq<u8>) -> Seq<char> {
    "result_"@ + hex(sha256(operation + input))
}

/// The cache key for a text.
pub fn generate_text_cache_key(text: &str) -> (key: String)
    ensures
        key@ == text_cache_key(text.spec_bytes()),
{
    let digest = sha256_hex(text.as_bytes());
    "text_".to_owned().concat(digest.as_str())
}

/// The cache key for a numeric series in its written form.
pub fn generate_data_cache_key(data: &str) -> (key: String)
    ensures
        key@ == data_cache_key(data.spec_bytes()),
{
    let digest = sha256_hex(data.as_bytes());
    "data_".to_owned().concat(digest.as_str())
}

/// The cache key for the result of an operation on an input.
pub fn generate_result_cache_key(operation: &str, input: &str) -> (key: String)
    ensures
        key@ == result_cache_key(operation.spec_bytes(), input.spec_bytes()),
{
    let mut bytes: Vec<u8> = Vec::new();
    bytes.extend_from_slice(operation.as_bytes());
    bytes.extend_from_slice(input.as_bytes());
    assert(bytes@ =~= operation.spec_bytes() + input.spec_bytes());
    let digest = sha256_hex(bytes.as_slice());
    "result_".to_owned().concat(digest.as_str())
}

} // verus!
