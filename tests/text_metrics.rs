use project_graph::text_metrics::{TextMetricsCache, DEFAULT_CAPACITY};
use std::cell::Cell;

fn measure_with(cache: &mut TextMetricsCache, text: &str, bucket: i32, width: u32, calls: &Cell<u32>) -> u32 {
    cache.get_or_measure(text, bucket, || {
        calls.set(calls.get() + 1);
        width
    })
}

#[test]
fn miss_measures_once_then_hits() {
    let calls = Cell::new(0);
    let mut cache = TextMetricsCache::new(4);
    assert_eq!(measure_with(&mut cache, "Hello", 140, 37, &calls), 37);
    assert_eq!(calls.get(), 1);
    assert_eq!(measure_with(&mut cache, "Hello", 140, 99, &calls), 37);
    assert_eq!(measure_with(&mut cache, "Hello", 140, 99, &calls), 37);
    assert_eq!(calls.get(), 1);
}

#[test]
fn size_bucket_is_part_of_the_key() {
    let calls = Cell::new(0);
    let mut cache = TextMetricsCache::new(4);
    assert_eq!(measure_with(&mut cache, "Hello", 140, 37, &calls), 37);
    assert_eq!(measure_with(&mut cache, "Hello", 141, 38, &calls), 38);
    assert_eq!(calls.get(), 2);
    assert_eq!(measure_with(&mut cache, "Hello", 140, 0, &calls), 37);
    assert_eq!(measure_with(&mut cache, "Hello", 141, 0, &calls), 38);
    assert_eq!(calls.get(), 2);
}

#[test]
fn full_cache_evicts_least_recently_used() {
    let calls = Cell::new(0);
    let mut cache = TextMetricsCache::new(2);
    measure_with(&mut cache, "a", 10, 1, &calls);
    measure_with(&mut cache, "b", 10, 2, &calls);
    measure_with(&mut cache, "c", 10, 3, &calls);
    assert_eq!(calls.get(), 3);
    // "b" and "c" stay
    assert_eq!(measure_with(&mut cache, "b", 10, 20, &calls), 2);
    assert_eq!(measure_with(&mut cache, "c", 10, 30, &calls), 3);
    assert_eq!(calls.get(), 3);
    // "a" was dropped and is measured again
    assert_eq!(measure_with(&mut cache, "a", 10, 10, &calls), 10);
    assert_eq!(calls.get(), 4);
}

#[test]
fn lookup_protects_from_eviction() {
    let calls = Cell::new(0);
    let mut cache = TextMetricsCache::new(2);
    measure_with(&mut cache, "a", 10, 1, &calls);
    measure_with(&mut cache, "b", 10, 2, &calls);
    // touching "a" makes "b" the least recently used
    assert_eq!(measure_with(&mut cache, "a", 10, 100, &calls), 1);
    measure_with(&mut cache, "c", 10, 3, &calls);
    assert_eq!(calls.get(), 3);
    assert_eq!(measure_with(&mut cache, "a", 10, 100, &calls), 1);
    assert_eq!(calls.get(), 3);
    assert_eq!(measure_with(&mut cache, "b", 10, 200, &calls), 200);
    assert_eq!(calls.get(), 4);
}

#[test]
fn capacity_one_keeps_only_the_last_key() {
    let calls = Cell::new(0);
    let mut cache = TextMetricsCache::new(1);
    measure_with(&mut cache, "a", 10, 1, &calls);
    measure_with(&mut cache, "b", 10, 2, &calls);
    assert_eq!(measure_with(&mut cache, "b", 10, 0, &calls), 2);
    assert_eq!(measure_with(&mut cache, "a", 10, 5, &calls), 5);
    assert_eq!(calls.get(), 3);
}

#[test]
fn default_capacity_holds_that_many_keys() {
    let calls = Cell::new(0);
    let mut cache = TextMetricsCache::with_default_capacity();
    for i in 0..DEFAULT_CAPACITY {
        let text = format!("node {}", i);
        measure_with(&mut cache, &text, 140, i as u32, &calls);
    }
    assert_eq!(calls.get(), 1024);
    // all still cached: the first is now the least recently used, touch nothing
    assert_eq!(measure_with(&mut cache, "node 1023", 140, 0, &calls), 1023);
    assert_eq!(calls.get(), 1024);
    // one more distinct key drops "node 0" only
    measure_with(&mut cache, "node 1024", 140, 1024, &calls);
    assert_eq!(calls.get(), 1025);
    assert_eq!(measure_with(&mut cache, "node 1", 140, 0, &calls), 1);
    assert_eq!(calls.get(), 1025);
    assert_eq!(measure_with(&mut cache, "node 0", 140, 7, &calls), 7);
    assert_eq!(calls.get(), 1026);
}

#[test]
fn empty_text_is_a_key_like_any_other() {
    let calls = Cell::new(0);
    let mut cache = TextMetricsCache::new(2);
    assert_eq!(measure_with(&mut cache, "", 0, 0, &calls), 0);
    assert_eq!(measure_with(&mut cache, "", 0, 9, &calls), 0);
    assert_eq!(calls.get(), 1);
}
