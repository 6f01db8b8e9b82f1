//! The read-through cache: refresh scheduling, failed-refresh behaviour,
//! lookups and in-place updates.
use oncall_sync::cache::Cache;

/// Drive one read as the read-through wrapper would: refresh when the cache
/// says so, counting the fetches.
fn read_through(
    cache: &mut Cache<String>,
    now: u64,
    data: Vec<(String, String)>,
    fetches: &mut u32,
) {
    if cache.check_needs_update(now) {
        *fetches += 1;
        cache
            .apply_refresh::<String>(now, Ok(data))
            .expect("successful refresh must install");
    }
}

#[test]
fn first_get_refreshes_second_within_interval_does_not() {
    let mut cache: Cache<String> = Cache::new(60);
    let mut fetches: u32 = 0;

    let data = vec![(String::from("a"), String::from("alpha"))];
    read_through(&mut cache, 0, data.clone(), &mut fetches);
    assert_eq!(fetches, 1);
    assert_eq!(cache.get_all().len(), 1);

    read_through(&mut cache, 30, data.clone(), &mut fetches);
    assert_eq!(fetches, 1);

    read_through(&mut cache, 60, data.clone(), &mut fetches);
    assert_eq!(fetches, 1);

    read_through(&mut cache, 61, data, &mut fetches);
    assert_eq!(fetches, 2);
}

#[test]
fn failed_refresh_keeps_snapshot_and_timestamp() {
    let mut cache: Cache<String> = Cache::new(60);
    cache
        .apply_refresh::<String>(0, Ok(vec![(String::from("k"), String::from("old"))]))
        .unwrap();

    assert!(cache.check_needs_update(100));
    let err = cache.apply_refresh::<String>(100, Err(String::from("network down")));
    assert_eq!(err, Err(String::from("network down")));

    // The stale snapshot is preserved and the very next read retries.
    assert_eq!(cache.get("k"), Some(&String::from("old")));
    assert!(cache.check_needs_update(100));

    cache
        .apply_refresh::<String>(100, Ok(vec![(String::from("k"), String::from("new"))]))
        .unwrap();
    assert_eq!(cache.get("k"), Some(&String::from("new")));
    assert!(!cache.check_needs_update(130));
}

#[test]
fn get_looks_up_the_snapshot() {
    let mut cache: Cache<String> = Cache::new(60);
    cache
        .apply_refresh::<String>(
            0,
            Ok(vec![
                (String::from("a"), String::from("alpha")),
                (String::from("b"), String::from("beta")),
            ]),
        )
        .unwrap();
    assert_eq!(cache.get("a"), Some(&String::from("alpha")));
    assert_eq!(cache.get("b"), Some(&String::from("beta")));
    assert_eq!(cache.get("c"), None);
}

#[test]
fn update_changes_one_entry_without_touching_the_timer() {
    let mut cache: Cache<String> = Cache::new(60);
    cache
        .apply_refresh::<String>(0, Ok(vec![(String::from("a"), String::from("alpha"))]))
        .unwrap();

    cache.update(String::from("a"), String::from("amended"));
    cache.update(String::from("b"), String::from("brand-new"));

    assert_eq!(cache.get("a"), Some(&String::from("amended")));
    assert_eq!(cache.get("b"), Some(&String::from("brand-new")));
    // The refresh timer still counts from the refresh, not the updates.
    assert!(!cache.check_needs_update(60));
    assert!(cache.check_needs_update(61));
}

#[test]
fn refresh_with_duplicate_keys_keeps_the_last() {
    let mut cache: Cache<String> = Cache::new(60);
    cache
        .apply_refresh::<String>(
            0,
            Ok(vec![
                (String::from("x"), String::from("first")),
                (String::from("x"), String::from("second")),
            ]),
        )
        .unwrap();
    assert_eq!(cache.get_all().len(), 1);
    assert_eq!(cache.get("x"), Some(&String::from("second")));
}

#[test]
fn new_cache_is_empty_and_stale_at_any_time() {
    let cache: Cache<String> = Cache::new(60);
    assert_eq!(cache.get_all().len(), 0);
    assert!(cache.check_needs_update(0));
    assert!(cache.check_needs_update(1_000_000));
}
