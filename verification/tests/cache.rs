use osubot::last_beatmap_cache::LastBeatmapCache;

#[test]
fn returns_none_for_missing() {
    let mut cache = LastBeatmapCache::new();
    assert_eq!(cache.get(1), None);
}

#[test]
fn returns_set_value_within_ttl() {
    let mut cache = LastBeatmapCache::new();
    cache.set(1, 42);
    assert_eq!(cache.get(1), Some(42));
}

#[test]
fn returns_none_after_ttl_expires_and_evicts() {
    let mut cache = LastBeatmapCache::with_ttl(std::time::Duration::from_millis(1));
    cache.set_at(1, 42, 0);
    assert_eq!(cache.get_at(1, 10_000_000), None);

    cache.set_at(1, 99, 10_000_000);
    assert_eq!(cache.get_at(1, 10_000_001), Some(99));
}

#[test]
fn evicted_entry_does_not_resurrect() {
    let mut cache = LastBeatmapCache::with_ttl(std::time::Duration::from_millis(1));
    cache.set_at(1, 42, 0);
    assert_eq!(cache.get_at(1, 5_000_000), None);
    assert_eq!(cache.get_at(1, 0), None);
}

#[test]
fn entry_expires_exactly_at_ttl() {
    let mut cache = LastBeatmapCache::new();
    let day: u128 = 86_400_000_000_000;
    cache.set_at(7, 5, 100);
    assert_eq!(cache.get_at(7, 100 + day - 1), Some(5));
    assert_eq!(cache.get_at(7, 100 + day), None);
    assert_eq!(cache.get_at(7, 100), None);
}

#[test]
fn groups_are_kept_apart() {
    let mut cache = LastBeatmapCache::new();
    cache.set_at(1, 10, 0);
    cache.set_at(2, 20, 0);
    assert_eq!(cache.get_at(1, 1), Some(10));
    assert_eq!(cache.get_at(2, 1), Some(20));
    cache.set_at(1, 11, 2);
    assert_eq!(cache.get_at(1, 3), Some(11));
    assert_eq!(cache.get_at(2, 3), Some(20));
}
