use nova::cache::{AsyncValue, CacheKey, SegmentCache};
use nova::segments::{SegmentContent, Style};

const NOW: u64 = 1_000_000;

fn segment(text: &str) -> SegmentContent {
    SegmentContent::new("git_status", text, Style::default())
}

fn key(source: &str) -> CacheKey {
    CacheKey::new("git_status", source, 1)
}

#[test]
fn lookup_returns_loading_for_missing_entry() {
    let mut cache = SegmentCache::new(2);

    assert_eq!(cache.lookup(&key("/repo"), NOW, 1_000), AsyncValue::Loading);
}

#[test]
fn lookup_returns_ready_when_entry_is_fresh() {
    let mut cache = SegmentCache::new(2);
    let key = key("/repo");
    cache.complete_success(key.clone(), Some(segment("*")), NOW);

    assert_eq!(
        cache.lookup(&key, NOW + 999, 1_000),
        AsyncValue::Ready(Some(segment("*")))
    );
}

#[test]
fn lookup_returns_stale_when_entry_exceeds_ttl() {
    let mut cache = SegmentCache::new(2);
    let key = key("/repo");
    cache.complete_success(key.clone(), Some(segment("*")), NOW);

    assert_eq!(
        cache.lookup(&key, NOW + 1_000, 1_000),
        AsyncValue::Stale(Some(segment("*")))
    );
}

#[test]
fn failed_refresh_keeps_existing_success_as_stale() {
    let mut cache = SegmentCache::new(2);
    let key = key("/repo");
    cache.complete_success(key.clone(), Some(segment("*")), NOW);
    cache.complete_failure(key.clone(), NOW + 2_000);

    assert_eq!(
        cache.lookup(&key, NOW + 2_000, 1_000),
        AsyncValue::Stale(Some(segment("*")))
    );
}

#[test]
fn lookup_returns_ready_for_empty_success() {
    let mut cache = SegmentCache::new(2);
    let key = key("/repo");
    cache.complete_success(key.clone(), None, NOW);

    assert_eq!(cache.lookup(&key, NOW, 1_000), AsyncValue::Ready(None));
}

#[test]
fn failed_refresh_keeps_existing_empty_success_as_stale() {
    let mut cache = SegmentCache::new(2);
    let key = key("/repo");
    cache.complete_success(key.clone(), None, NOW);
    cache.complete_failure(key.clone(), NOW + 2_000);

    assert_eq!(cache.lookup(&key, NOW + 2_000, 1_000), AsyncValue::Stale(None));
}

#[test]
fn failure_without_prior_value_is_recorded() {
    let mut cache = SegmentCache::new(2);
    let key = key("/repo");
    cache.complete_failure(key.clone(), NOW);

    assert_eq!(cache.lookup(&key, NOW, 1_000), AsyncValue::Failed);
}

#[test]
fn inflight_entries_coalesce_refreshes() {
    let mut cache = SegmentCache::new(2);
    let key = key("/repo");

    assert!(cache.mark_inflight(key.clone()));
    assert!(!cache.mark_inflight(key.clone()));
    assert!(cache.is_inflight(&key));
    assert!(!cache.needs_refresh(&key, NOW, 0));
}

#[test]
fn success_completion_clears_inflight_state() {
    let mut cache = SegmentCache::new(2);
    let key = key("/repo");
    cache.mark_inflight(key.clone());

    cache.complete_success(key.clone(), Some(segment("*")), NOW);

    assert!(!cache.is_inflight(&key));
    assert_eq!(
        cache.lookup(&key, NOW, 1_000),
        AsyncValue::Ready(Some(segment("*")))
    );
}

#[test]
fn evicts_oldest_entry_when_capacity_is_reached() {
    let mut cache = SegmentCache::new(2);
    let first = key("/one");
    let second = key("/two");
    let third = key("/three");
    cache.complete_success(first.clone(), Some(segment("1")), NOW);
    cache.complete_success(second.clone(), Some(segment("2")), NOW + 1_000);
    cache.complete_success(third.clone(), Some(segment("3")), NOW + 2_000);

    assert_eq!(cache.lookup(&first, NOW + 2_000, 10_000), AsyncValue::Loading);
    assert_eq!(cache.len(), 2);
}

#[test]
fn zero_capacity_cache_does_not_store_entries() {
    let mut cache = SegmentCache::new(0);
    let key = key("/repo");
    cache.complete_success(key.clone(), Some(segment("*")), NOW);

    assert!(cache.is_empty());
    assert_eq!(cache.lookup(&key, NOW, 1_000), AsyncValue::Loading);
}

#[test]
fn a_stored_value_reads_back_until_its_ttl_passes() {
    let mut cache = SegmentCache::new(4);
    let key = key("/law");
    cache.complete_success(key.clone(), Some(segment("x")), 10);

    assert_eq!(cache.lookup(&key, 10, 5), AsyncValue::Ready(Some(segment("x"))));
    assert_eq!(cache.lookup(&key, 14, 5), AsyncValue::Ready(Some(segment("x"))));
    assert_eq!(cache.lookup(&key, 15, 5), AsyncValue::Stale(Some(segment("x"))));
}

#[test]
fn the_cache_never_holds_more_than_its_capacity() {
    let mut cache = SegmentCache::new(3);
    for i in 0..10u64 {
        cache.complete_success(key(&format!("/{i}")), None, i);
        assert!(cache.len() <= 3);
    }
    assert_eq!(cache.len(), 3);
    assert!(cache.has_entry(&key("/9")));
    assert!(!cache.has_entry(&key("/6")));
}

#[test]
fn refresh_is_needed_only_when_nothing_fresh_is_kept() {
    let mut cache = SegmentCache::new(2);
    let key = key("/repo");
    assert!(cache.needs_refresh(&key, NOW, 100));
    cache.complete_success(key.clone(), None, NOW);
    assert!(!cache.needs_refresh(&key, NOW + 99, 100));
    assert!(cache.needs_refresh(&key, NOW + 100, 100));
}

#[test]
fn evicts_least_recently_used_entry_after_a_read() {
    let mut cache = SegmentCache::new(2);
    let a = key("/a");
    let b = key("/b");
    let c = key("/c");
    cache.complete_success(a.clone(), Some(segment("x")), NOW);
    cache.complete_success(b.clone(), Some(segment("y")), NOW + 1_000);
    assert_eq!(
        cache.lookup(&a, NOW + 1_000, 10_000),
        AsyncValue::Ready(Some(segment("x")))
    );
    cache.complete_success(c.clone(), Some(segment("z")), NOW + 2_000);

    assert_eq!(cache.lookup(&b, NOW + 2_000, 10_000), AsyncValue::Loading);
    assert_eq!(
        cache.lookup(&a, NOW + 2_000, 10_000),
        AsyncValue::Ready(Some(segment("x")))
    );
    assert_eq!(cache.len(), 2);
}
