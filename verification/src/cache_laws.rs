//! What the cache's operations guarantee together, proved from their
//! contracts alone.

use crate::cache::{Cache, CacheEntry, data_cache_key, result_cache_key, text_cache_key};
use crate::clock::NANOS_PER_SECOND;
use crate::digest::{hex, lemma_hex_injective, sha256};
use vstd::prelude::*;

verus! {

/// A lookup that directly follows a write of the same key finds a clone of
/// the written value and counts as a hit, unless the entry has expired by
/// then. An eviction that the write itself caused does not matter: it never
/// takes the entry just written.
pub proof fn law_lookup_after_write<T: Clone>(
    before: &Cache<T>,
    written: &Cache<T>,
    after: &Cache<T>,
    key: Seq<char>,
    value: T,
    write_time: u64,
    read_time: u64,
    found: Option<T>,
)
    requires
        Cache::stored(before, key, value, write_time, written),
        Cache::looked_up(written, key, read_time, after, found),
        !CacheEntry::fresh(value, write_time).expired(written.ttl(), read_time),
    ensures
        found is Some,
        cloned(value, found.unwrap()),
        after.hits() == written.hits() + 1,
        after.misses() == written.misses(),
{
    assert(written.entries().contains_key(key));
    assert(written.entries()[key] == CacheEntry::fresh(value, write_time));
}

/// A lookup of a key that was just removed finds nothing and counts as a
/// miss.
pub proof fn law_lookup_after_remove<T: Clone>(
    before: &Cache<T>,
    removed: &Cache<T>,
    after: &Cache<T>,
    key: Seq<char>,
    read_time: u64,
    found: Option<T>,
)
    requires
        removed.entries() == before.entries().remove(key),
        Cache::looked_up(removed, key, read_time, after, found),
    ensures
        found is None,
        after.misses() == removed.misses() + 1,
        after.hits() == removed.hits(),
{
}

/// Every lookup is counted once, as a hit or as a miss, and as a hit exactly
/// when it found a value. A hit is also counted once on the entry that was
/// found, and on no other: no access is lost and none is counted twice.
pub proof fn law_lookup_counted_once<T: Clone>(
    before: &Cache<T>,
    after: &Cache<T>,
    key: Seq<char>,
    read_time: u64,
    found: Option<T>,
)
    requires
        before.well_formed(),
        before.can_count_lookup_at(key, read_time),
        Cache::looked_up(before, key, read_time, after, found),
    ensures
        after.hits() + after.misses() == before.hits() + before.misses() + 1,
        found is Some <==> after.hits() == before.hits() + 1,
        found is None <==> after.misses() == before.misses() + 1,
        found is Some ==> after.entries().contains_key(key) && after.entries()[key].access_count
            == before.entries()[key].access_count + 1 && after.entries()[key].accessed_at == read_time,
        forall|other: Seq<char>|
            other != key && #[trigger] before.entries().contains_key(other) ==> after.entries().contains_key(
                other,
            ) && after.entries()[other] == before.entries()[other],
{
    before.lemma_well_formed();
}

/// Writing a new key into a cache that is full and holds at least one entry
/// evicts exactly one entry: the size stays and one eviction is counted.
pub proof fn law_write_into_full_cache<T>(
    before: &Cache<T>,
    after: &Cache<T>,
    key: Seq<char>,
    value: T,
    write_time: u64,
)
    requires
        before.well_formed(),
        before.entries().len() >= before.capacity(),
        before.entries().len() > 0,
        !before.entries().contains_key(key),
        Cache::stored(before, key, value, write_time, after),
    ensures
        after.entries().len() == before.entries().len(),
        after.evictions() == before.evictions() + 1,
        after.entries().contains_key(key),
{
    before.lemma_well_formed();
    let victim = choose|victim: Seq<char>| #[trigger]
        before.may_evict(victim, write_time) && after.entries() == before.entries().remove(victim).insert(
            key,
            CacheEntry::fresh(value, write_time),
        );
    assert(after.entries().dom() =~= before.entries().dom().remove(victim).insert(key));
}

/// Writing a key that the cache already holds evicts nothing, however full
/// the cache is, and leaves the size as it was.
pub proof fn law_overwrite_evicts_nothing<T>(
    before: &Cache<T>,
    after: &Cache<T>,
    key: Seq<char>,
    value: T,
    write_time: u64,
)
    requires
        before.well_formed(),
        before.entries().contains_key(key),
        Cache::stored(before, key, value, write_time, after),
    ensures
        after.entries().len() == before.entries().len(),
        after.evictions() == before.evictions(),
        after.entries().dom() == before.entries().dom(),
        after.entries()[key] == CacheEntry::fresh(value, write_time),
{
    before.lemma_well_formed();
    assert(after.entries().dom() =~= before.entries().dom());
}

/// With a time-to-live of `seconds`, a lookup finds a held entry up to and
/// including the moment `seconds` after it was written, and not one
/// nanosecond later.
pub proof fn law_expiry_boundary<T: Clone>(
    before: &Cache<T>,
    after: &Cache<T>,
    key: Seq<char>,
    seconds: u64,
    read_time: u64,
    found: Option<T>,
)
    requires
        before.entries().contains_key(key),
        before.ttl() == Some(seconds),
        before.entries()[key].created_at <= read_time,
        Cache::looked_up(before, key, read_time, after, found),
    ensures
        read_time - before.entries()[key].created_at > seconds * NANOS_PER_SECOND ==> found is None,
        read_time - before.entries()[key].created_at <= seconds * NANOS_PER_SECOND ==> found is Some,
{
}

/// A sweep removes the expired entries and nothing else: the result is the
/// number of expired entries, and what is left are the live entries, as many
/// as there were and unchanged.
pub proof fn law_sweep_removes_the_expired<T>(
    before: &Cache<T>,
    after: &Cache<T>,
    sweep_time: u64,
    removed: usize,
)
    requires
        before.well_formed(),
        Cache::swept(before, sweep_time, after, removed),
    ensures
        removed == before.expired_keys(sweep_time).len(),
        after.entries().dom() == before.entries().dom().difference(before.expired_keys(sweep_time)),
        after.entries().len() == before.entries().dom().difference(
            before.expired_keys(sweep_time),
        ).len(),
        forall|k: Seq<char>| #[trigger]
            after.entries().contains_key(k) ==> after.entries()[k] == before.entries()[k]
                && !before.entries()[k].expired(before.ttl(), sweep_time),
{
    assert(after.entries().dom() =~= before.entries().dom().difference(
        before.expired_keys(sweep_time),
    ));
}

/// Key derivation is a function of the input's bytes, and it adds no
/// collision of its own: two inputs get the same key exactly when their
/// SHA-256 digests are the same.
pub proof fn law_keys_follow_digests(a: Seq<u8>, b: Seq<u8>)
    ensures
        a == b ==> text_cache_key(a) == text_cache_key(b),
        text_cache_key(a) == text_cache_key(b) <==> sha256(a) == sha256(b),
        data_cache_key(a) == data_cache_key(b) <==> sha256(a) == sha256(b),
{
    if text_cache_key(a) == text_cache_key(b) {
        assert(text_cache_key(a).skip("text_"@.len() as int) =~= hex(sha256(a)));
        assert(text_cache_key(b).skip("text_"@.len() as int) =~= hex(sha256(b)));
        lemma_hex_injective(sha256(a), sha256(b));
    }
    if data_cache_key(a) == data_cache_key(b) {
        assert(data_cache_key(a).skip("data_"@.len() as int) =~= hex(sha256(a)));
        assert(data_cache_key(b).skip("data_"@.len() as int) =~= hex(sha256(b)));
        lemma_hex_injective(sha256(a), sha256(b));
    }
}

/// The key of a result depends on the operation's name and the input only
/// through the bytes of the one followed by the other, and two results get
/// the same key exactly when the digests of those bytes are the same.
pub proof fn law_result_keys_follow_digests(
    operation_a: Seq<u8>,
    input_a: Seq<u8>,
    operation_b: Seq<u8>,
    input_b: Seq<u8>,
)
    ensures
        result_cache_key(operation_a, input_a) == result_cache_key(operation_b, input_b) <==> sha256(
            operation_a + input_a,
        ) == sha256(operation_b + input_b),
{
    let (a, b) = (operation_a + input_a, operation_b + input_b);
    if result_cache_key(operation_a, input_a) == result_cache_key(operation_b, input_b) {
        assert(result_cache_key(operation_a, input_a).skip("result_"@.len() as int) =~= hex(sha256(a)));
        assert(result_cache_key(operation_b, input_b).skip("result_"@.len() as int) =~= hex(sha256(b)));
        lemma_hex_injective(sha256(a), sha256(b));
    }
}

} // verus!
