use analysis_backend::cache::{
    cleanup_all_caches, clear_all_caches, generate_data_cache_key, generate_result_cache_key,
    generate_text_cache_key, get_cache_stats, get_cached_data, get_cached_result, get_cached_text,
    set_cached_data, set_cached_result, set_cached_text, Cache, CacheEntry, CacheStats, Caches,
};

const SECOND: u64 = 1_000_000_000;

fn entry(created_at: u64, accessed_at: u64, access_count: u64) -> CacheEntry<u8> {
    CacheEntry { value: 0, created_at, accessed_at, access_count }
}

#[test]
fn test_cache_basic_operations() {
    let mut cache = Cache::new(10, Some(60));

    cache.set("key1", "value1".to_string());
    assert_eq!(cache.get("key1"), Some("value1".to_string()));
    assert_eq!(cache.get("key2"), None);

    cache.remove("key1");
    assert_eq!(cache.get("key1"), None);
}

#[test]
fn test_cache_eviction() {
    let mut cache = Cache::new(2, None);

    cache.set("key1", "value1".to_string());
    cache.set("key2", "value2".to_string());
    cache.set("key3", "value3".to_string());

    // Should have evicted one entry
    assert_eq!(cache.size(), 2);
}

#[test]
fn test_cache_stats() {
    let mut cache = Cache::new(10, None);

    cache.set("key1", "value1".to_string());
    cache.get("key1");
    cache.get("nonexistent");

    let stats = cache.get_stats();
    assert_eq!(stats.hits, 1);
    assert_eq!(stats.misses, 1);
    assert!(stats.hit_rate_ppm() > 0);
}

#[test]
fn test_global_caches() {
    let mut caches: Caches<Vec<f64>> = Caches::new();
    set_cached_text(&mut caches, "test_key", "test_value".to_string());
    assert_eq!(get_cached_text(&mut caches, "test_key"), Some("test_value".to_string()));

    set_cached_data(&mut caches, "test_data", vec![1.0, 2.0, 3.0]);
    assert_eq!(get_cached_data(&mut caches, "test_data"), Some(vec![1.0, 2.0, 3.0]));
}

#[test]
fn test_cache_key_generation() {
    let key1 = generate_text_cache_key("test text");
    let key2 = generate_text_cache_key("test text");
    let key3 = generate_text_cache_key("different text");

    assert_eq!(key1, key2);
    assert_ne!(key1, key3);
}

#[test]
fn test_caching_system() {
    let mut caches: Caches<Vec<f64>> = Caches::new();

    // Test text caching
    set_cached_text(&mut caches, "test_key", "test_value".to_string());
    assert_eq!(get_cached_text(&mut caches, "test_key"), Some("test_value".to_string()));

    // Test data caching
    let test_data = vec![1.0, 2.0, 3.0, 4.0, 5.0];
    set_cached_data(&mut caches, "test_data", test_data.clone());
    assert_eq!(get_cached_data(&mut caches, "test_data"), Some(test_data));

    // Test cache statistics
    let stats = get_cache_stats(&caches);
    assert!(!stats.is_empty());
    assert!(stats.iter().any(|(name, _)| name == "text_cache"));
    assert!(stats.iter().any(|(name, _)| name == "data_cache"));
    assert!(stats.iter().any(|(name, _)| name == "result_cache"));
}

#[test]
fn test_memory_management() {
    let mut caches: Caches<Vec<f64>> = Caches::new();
    set_cached_text(&mut caches, "a", "b".to_string());
    let cache_stats = get_cache_stats(&caches);
    for (_, stats) in cache_stats.iter() {
        assert!(stats.size <= stats.max_size);
        assert!(stats.hit_rate_ppm() <= 1_000_000);
    }
    let cleanup_stats = cleanup_all_caches(&mut caches);
    assert!(!cleanup_stats.is_empty());
    assert_eq!(cleanup_stats.len(), 3);
    assert_eq!(cleanup_stats[0], ("text_cache".to_string(), 0));
    assert_eq!(cleanup_stats[1], ("data_cache".to_string(), 0));
    assert_eq!(cleanup_stats[2], ("result_cache".to_string(), 0));
}

#[test]
fn lookup_of_an_empty_key_misses() {
    let mut caches: Caches<Vec<f64>> = Caches::new();
    assert!(get_cached_text(&mut caches, "").is_none());
    set_cached_text(&mut caches, "", "empty".to_string());
    assert_eq!(get_cached_text(&mut caches, ""), Some("empty".to_string()));
}

#[test]
fn get_after_set_returns_the_value() {
    let mut cache = Cache::new(3, Some(10));
    cache.set_at("k", 41u32, 7);
    assert_eq!(cache.get_at("k", 8), Some(41));
    cache.set_at("k", 42u32, 9);
    assert_eq!(cache.get_at("k", 9), Some(42));
    assert_eq!(cache.size(), 1);
}

#[test]
fn get_after_remove_is_a_miss() {
    let mut cache = Cache::new(3, None);
    cache.set_at("k", 1u8, 0);
    assert_eq!(cache.remove("k"), Some(1));
    assert_eq!(cache.remove("k"), None);
    let before = cache.get_stats();
    assert_eq!(cache.get_at("k", 1), None);
    let after = cache.get_stats();
    assert_eq!(after.misses, before.misses + 1);
    assert_eq!(after.hits, before.hits);
}

#[test]
fn remove_and_clear_leave_the_counters() {
    let mut cache = Cache::new(3, None);
    cache.set_at("a", 1u8, 0);
    cache.set_at("b", 2u8, 0);
    assert_eq!(cache.get_at("a", 1), Some(1));
    assert_eq!(cache.get_at("zz", 1), None);
    cache.remove("a");
    cache.clear();
    assert!(cache.is_empty());
    assert_eq!(cache.size(), 0);
    assert_eq!(
        cache.get_stats(),
        CacheStats { hits: 1, misses: 1, evictions: 0, size: 0, max_size: 3 }
    );
}

#[test]
fn set_does_not_count_as_a_lookup() {
    let mut cache = Cache::new(3, None);
    cache.set_at("a", 1u8, 0);
    cache.set_at("b", 2u8, 0);
    let stats = cache.get_stats();
    assert_eq!((stats.hits, stats.misses, stats.size), (0, 0, 2));
}

#[test]
fn new_key_at_capacity_evicts_exactly_one() {
    let mut cache = Cache::new(2, None);
    cache.set_at("a", 1u8, 0);
    cache.set_at("b", 2u8, 0);
    assert_eq!(cache.get_stats().evictions, 0);
    cache.set_at("c", 3u8, 0);
    assert_eq!(cache.size(), 2);
    assert_eq!(cache.get_stats().evictions, 1);
    assert!(cache.contains_key("c"));
}

#[test]
fn existing_key_at_capacity_evicts_nothing() {
    let mut cache = Cache::new(2, None);
    cache.set_at("a", 1u8, 0);
    cache.set_at("b", 2u8, 0);
    cache.set_at("a", 9u8, 5);
    assert_eq!(cache.size(), 2);
    assert_eq!(cache.get_stats().evictions, 0);
    assert!(cache.contains_key("a") && cache.contains_key("b"));
    assert_eq!(cache.get_at("a", 5), Some(9));
}

#[test]
fn a_cache_for_no_entry_holds_one() {
    let mut cache = Cache::new(0, None);
    cache.set_at("a", 1u8, 0);
    assert_eq!(cache.size(), 1);
    assert_eq!(cache.get_stats().evictions, 0);
    cache.set_at("b", 2u8, 0);
    assert_eq!(cache.size(), 1);
    assert_eq!(cache.get_stats().evictions, 1);
    assert!(cache.contains_key("b"));
    assert!(!cache.contains_key("a"));
}

#[test]
fn eviction_takes_the_lowest_score() {
    // At 100 s: "often" was read 3 times, "seldom" once, both touched last at 0 s.
    let mut cache = Cache::new(2, None);
    cache.set_at("often", 1u8, 0);
    cache.set_at("seldom", 2u8, 0);
    assert_eq!(cache.get_at("often", 0), Some(1));
    assert_eq!(cache.get_at("often", 0), Some(1));
    cache.set_at("new", 3u8, 100 * SECOND);
    assert!(cache.contains_key("often"));
    assert!(!cache.contains_key("seldom"));
    assert!(cache.contains_key("new"));
}

#[test]
fn eviction_weighs_recency() {
    // "old" has 4 accesses but was idle for 100 s: score 4/100.
    // "recent" has 1 access and was idle for 2 s: score 1/2.
    let mut cache = Cache::new(2, None);
    cache.set_at("old", 1u8, 0);
    for _ in 0..3 {
        assert_eq!(cache.get_at("old", 0), Some(1));
    }
    cache.set_at("recent", 2u8, 98 * SECOND);
    cache.set_at("new", 3u8, 100 * SECOND);
    assert!(!cache.contains_key("old"));
    assert!(cache.contains_key("recent"));
}

#[test]
fn score_formula() {
    let a = entry(0, 0, 3);
    let b = entry(0, 5 * SECOND, 1);
    // at 10 s: a idles 10 s, b idles 5 s.
    assert_eq!(a.idle_secs(10 * SECOND), 10);
    assert_eq!(b.idle_secs(10 * SECOND), 5);
    // less than one second counts as one
    assert_eq!(b.idle_secs(5 * SECOND + 999_999_999), 1);
    assert_eq!(b.idle_secs(5 * SECOND), 1);
    assert_eq!(b.idle_secs(7 * SECOND - 1), 1);
    assert_eq!(b.idle_secs(7 * SECOND), 2);
    // 3/10 > 1/5
    assert!(!a.score_at_most(&b, 10 * SECOND));
    assert!(b.score_at_most(&a, 10 * SECOND));
    // equal scores: 2/10 and 1/5
    let c = entry(0, 0, 2);
    assert!(c.score_at_most(&b, 10 * SECOND));
    assert!(b.score_at_most(&c, 10 * SECOND));
    // huge counts do not overflow
    let d = entry(0, 0, u64::MAX);
    assert!(d.score_at_most(&d, u64::MAX));
    assert!(!d.score_at_most(&a, u64::MAX));
}

#[test]
fn expiry_formula() {
    let e = entry(5 * SECOND, 5 * SECOND, 1);
    assert!(!e.is_expired(Some(60), 65 * SECOND));
    assert!(e.is_expired(Some(60), 65 * SECOND + 1));
    assert!(!e.is_expired(None, u64::MAX));
    assert!(!e.is_expired(Some(0), 5 * SECOND));
    assert!(e.is_expired(Some(0), 5 * SECOND + 1));
    assert!(!e.is_expired(Some(u64::MAX), u64::MAX));
    // a time before the entry was written counts as no age
    assert!(!e.is_expired(Some(0), 0));
}

#[test]
fn ttl_boundary_is_exact() {
    let mut cache = Cache::new(4, Some(60));
    cache.set_at("k", 7u32, 5 * SECOND);
    assert_eq!(cache.get_at("k", 65 * SECOND - 1), Some(7));
    assert_eq!(cache.get_at("k", 65 * SECOND), Some(7));
    assert_eq!(cache.get_at("k", 65 * SECOND + 1), None);
    assert!(!cache.contains_key("k"));
    let stats = cache.get_stats();
    assert_eq!((stats.hits, stats.misses), (2, 1));
}

#[test]
fn reads_do_not_renew_the_time_to_live() {
    let mut cache = Cache::new(4, Some(10));
    cache.set_at("k", 7u32, 0);
    assert_eq!(cache.get_at("k", 9 * SECOND), Some(7));
    assert_eq!(cache.get_at("k", 11 * SECOND), None);
}

#[test]
fn overwriting_resets_age_and_history() {
    let mut cache = Cache::new(4, Some(10));
    cache.set_at("k", 7u32, 0);
    cache.set_at("k", 8u32, 9 * SECOND);
    assert_eq!(cache.get_at("k", 15 * SECOND), Some(8));
}

#[test]
fn cleanup_removes_the_expired_and_keeps_the_live() {
    let mut cache = Cache::new(10, Some(10));
    cache.set_at("old1", 1u8, 0);
    cache.set_at("old2", 2u8, SECOND);
    cache.set_at("old3", 3u8, 2 * SECOND);
    cache.set_at("live1", 4u8, 10 * SECOND);
    cache.set_at("live2", 5u8, 11 * SECOND);
    let before = cache.get_stats();
    assert_eq!(cache.cleanup_expired_at(12 * SECOND + 1), 3);
    assert_eq!(cache.size(), 2);
    assert!(cache.contains_key("live1") && cache.contains_key("live2"));
    assert!(!cache.contains_key("old1") && !cache.contains_key("old2") && !cache.contains_key("old3"));
    let after = cache.get_stats();
    assert_eq!((after.hits, after.misses, after.evictions), (before.hits, before.misses, before.evictions));
    assert_eq!(cache.cleanup_expired_at(12 * SECOND + 1), 0);
    assert_eq!(cache.get_at("live1", 13 * SECOND), Some(4));
}

#[test]
fn cleanup_without_a_time_to_live_removes_nothing() {
    let mut cache = Cache::new(10, None);
    cache.set_at("a", 1u8, 0);
    assert_eq!(cache.cleanup_expired_at(u64::MAX), 0);
    assert_eq!(cache.size(), 1);
    assert_eq!(cache.cleanup_expired(), 0);
}

#[test]
fn hit_rate_in_parts_per_million() {
    let none = CacheStats { hits: 0, misses: 0, evictions: 0, size: 0, max_size: 1 };
    assert_eq!(none.hit_rate_ppm(), 0);
    let third = CacheStats { hits: 1, misses: 2, evictions: 0, size: 0, max_size: 1 };
    assert_eq!(third.hit_rate_ppm(), 333_333);
    let all = CacheStats { hits: u64::MAX, misses: 0, evictions: 0, size: 0, max_size: 1 };
    assert_eq!(all.hit_rate_ppm(), 1_000_000);
    let half = CacheStats { hits: u64::MAX, misses: u64::MAX, evictions: 0, size: 0, max_size: 1 };
    assert_eq!(half.hit_rate_ppm(), 500_000);
}

#[test]
fn many_keys_stay_findable_through_removals() {
    let mut cache = Cache::new(100, None);
    for i in 0..100u32 {
        cache.set_at(&format!("key{}", i), i, 0);
    }
    for i in (0..100u32).step_by(3) {
        assert_eq!(cache.remove(&format!("key{}", i)), Some(i));
    }
    for i in 0..100u32 {
        let expected = if i % 3 == 0 { None } else { Some(i) };
        assert_eq!(cache.get_at(&format!("key{}", i), 1), expected);
    }
    assert_eq!(cache.size(), 66);
}

#[test]
fn key_derivation_known_values() {
    // SHA-256 of the empty string and of "abc".
    assert_eq!(
        generate_text_cache_key(""),
        "text_e3b0c44298fc1c149afbf4c8996fb92427ae41e4649b934ca495991b7852b855"
    );
    assert_eq!(
        generate_data_cache_key("abc"),
        "data_ba7816bf8f01cfea414140de5dae2223b00361a396177a9cb410ff61f20015ad"
    );
    assert_eq!(
        generate_result_cache_key("a", "bc"),
        "result_ba7816bf8f01cfea414140de5dae2223b00361a396177a9cb410ff61f20015ad"
    );
}

#[test]
fn key_derivation_tells_near_duplicates_apart() {
    let samples = ["hello", "hellp", "Hello", "hello ", " hello", "hell", "hello\n", "hellø"];
    for (i, a) in samples.iter().enumerate() {
        for (j, b) in samples.iter().enumerate() {
            assert_eq!(generate_text_cache_key(a) == generate_text_cache_key(b), i == j);
            assert_eq!(generate_data_cache_key(a) == generate_data_cache_key(b), i == j);
            assert_eq!(
                generate_result_cache_key("op", a) == generate_result_cache_key("op", b),
                i == j
            );
        }
        assert_ne!(generate_text_cache_key(a), generate_data_cache_key(a));
        assert_ne!(generate_result_cache_key("op1", a), generate_result_cache_key("op2", a));
    }
}

#[test]
fn the_three_caches_share_nothing() {
    let mut caches: Caches<Vec<f64>> = Caches::new();
    set_cached_text(&mut caches, "k", "text".to_string());
    set_cached_result(&mut caches, "k", "result".to_string());
    assert_eq!(get_cached_data(&mut caches, "k"), None);
    assert_eq!(get_cached_text(&mut caches, "k"), Some("text".to_string()));
    assert_eq!(get_cached_result(&mut caches, "k"), Some("result".to_string()));
    let stats = get_cache_stats(&caches);
    assert_eq!(stats[0].1, CacheStats { hits: 1, misses: 0, evictions: 0, size: 1, max_size: 1000 });
    assert_eq!(stats[1].1, CacheStats { hits: 0, misses: 1, evictions: 0, size: 0, max_size: 500 });
    assert_eq!(stats[2].1, CacheStats { hits: 1, misses: 0, evictions: 0, size: 1, max_size: 2000 });
    clear_all_caches(&mut caches);
    assert!(caches.text.is_empty() && caches.data.is_empty() && caches.result.is_empty());
    assert_eq!(get_cache_stats(&caches)[0].1.hits, 1);
}

#[test]
fn peeking_counts_nothing() {
    let mut cache = Cache::new(4, Some(60));
    assert!(cache.peek("k").is_none());
    cache.set_at("k", 7u32, 5 * SECOND);
    let fresh = cache.peek("k").unwrap();
    assert_eq!((fresh.value, fresh.created_at, fresh.accessed_at, fresh.access_count), (7, 5 * SECOND, 5 * SECOND, 1));
    assert_eq!(cache.get_at("k", 9 * SECOND), Some(7));
    assert_eq!(cache.get_at("k", 11 * SECOND), Some(7));
    let read = cache.peek("k").unwrap();
    assert_eq!((read.value, read.created_at, read.accessed_at, read.access_count), (7, 5 * SECOND, 11 * SECOND, 3));
    let stats = cache.get_stats();
    assert_eq!((stats.hits, stats.misses), (2, 0));
    // an expired entry is still there until someone looks it up
    assert!(cache.contains_key("k"));
    assert!(cache.peek("k").is_some());
}

#[test]
fn interleaved_workers_lose_no_access() {
    // Eight workers take turns, each writing its own key once and reading keys in turn.
    let workers = 8usize;
    let rounds = 50usize;
    let mut cache = Cache::new(workers, None);
    let mut now = 0u64;
    for worker in 0..workers {
        cache.set_at(&format!("w{}", worker), worker, now);
    }
    let mut found = 0u64;
    for round in 0..rounds {
        for worker in 0..workers {
            now += 1;
            let key = format!("w{}", (worker + round) % (workers + 2));
            if cache.get_at(&key, now).is_some() {
                found += 1;
            }
        }
    }
    let stats = cache.get_stats();
    assert_eq!(stats.hits, found);
    assert_eq!(stats.hits + stats.misses, (workers * rounds) as u64);
    let accesses: u64 =
        (0..workers).map(|worker| cache.peek(&format!("w{}", worker)).unwrap().access_count - 1).sum();
    assert_eq!(accesses, stats.hits);
}
