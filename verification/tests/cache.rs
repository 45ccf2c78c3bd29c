use bucket_creds::credentials::cache::{CachedCredential, CredentialCache, NANOS_PER_SEC};

fn entry(raw: &str, fetched_at: u128) -> CachedCredential {
    CachedCredential {
        raw: raw.to_string(),
        fetched_at,
    }
}

#[test]
fn nanos_per_sec_is_a_billion() {
    assert_eq!(NANOS_PER_SEC, 1_000_000_000);
}

#[test]
fn entry_is_fresh_strictly_below_the_ttl() {
    let stored = entry("p", 5 * NANOS_PER_SEC);
    assert!(stored.is_fresh(60, 5 * NANOS_PER_SEC));
    assert!(stored.is_fresh(60, 15 * NANOS_PER_SEC));
    assert!(stored.is_fresh(60, 65 * NANOS_PER_SEC - 1));
    assert!(!stored.is_fresh(60, 65 * NANOS_PER_SEC));
    assert!(!stored.is_fresh(60, 66 * NANOS_PER_SEC));
}

#[test]
fn freshness_counts_fractions_of_a_second() {
    let stored = entry("p", 1_500_000_000);
    assert!(stored.is_fresh(1, 2_499_999_999));
    assert!(!stored.is_fresh(1, 2_500_000_000));
}

#[test]
fn zero_ttl_is_never_fresh() {
    let stored = entry("p", 7);
    assert!(!stored.is_fresh(0, 7));
    assert!(!stored.is_fresh(0, 8));
    assert!(!stored.is_fresh(0, 0));
}

#[test]
fn clock_reading_before_the_fetch_counts_as_age_zero() {
    let stored = entry("p", 10 * NANOS_PER_SEC);
    assert!(stored.is_fresh(1, 3 * NANOS_PER_SEC));
    assert!(!stored.is_fresh(0, 3 * NANOS_PER_SEC));
}

#[test]
fn freshness_holds_at_the_largest_values() {
    let stored = entry("p", 0);
    assert!(stored.is_fresh(u64::MAX, u64::MAX as u128 * NANOS_PER_SEC - 1));
    assert!(!stored.is_fresh(u64::MAX, u64::MAX as u128 * NANOS_PER_SEC));
    assert!(!stored.is_fresh(u64::MAX, u128::MAX));
    assert!(entry("p", u128::MAX).is_fresh(1, u128::MAX));
}

#[test]
fn new_cache_is_empty() {
    let cache = CredentialCache::new();
    assert!(cache.get("logs", "tok1").is_none());
}

#[test]
fn cache_returns_what_was_stored() {
    let mut cache = CredentialCache::new();
    cache.insert("logs", "tok1", entry("one", 1));
    cache.insert("logs", "tok2", entry("two", 2));
    cache.insert("media", "tok1", entry("three", 3));
    assert_eq!(cache.get("logs", "tok1"), Some(&entry("one", 1)));
    assert_eq!(cache.get("logs", "tok2"), Some(&entry("two", 2)));
    assert_eq!(cache.get("media", "tok1"), Some(&entry("three", 3)));
    assert!(cache.get("media", "tok2").is_none());
    assert!(cache.get("other", "tok1").is_none());
}

#[test]
fn cache_insert_overwrites_the_same_pair_only() {
    let mut cache = CredentialCache::new();
    cache.insert("logs", "tok1", entry("old", 1));
    cache.insert("logs", "tok2", entry("other", 2));
    cache.insert("logs", "tok1", entry("new", 3));
    assert_eq!(cache.get("logs", "tok1"), Some(&entry("new", 3)));
    assert_eq!(cache.get("logs", "tok2"), Some(&entry("other", 2)));
}

#[test]
fn cache_remove_drops_the_same_pair_only() {
    let mut cache = CredentialCache::new();
    cache.insert("logs", "tok1", entry("one", 1));
    cache.insert("logs", "tok2", entry("two", 2));
    cache.insert("media", "tok1", entry("three", 3));
    cache.remove("logs", "tok1");
    assert!(cache.get("logs", "tok1").is_none());
    assert_eq!(cache.get("logs", "tok2"), Some(&entry("two", 2)));
    assert_eq!(cache.get("media", "tok1"), Some(&entry("three", 3)));
    cache.remove("logs", "tok1");
    cache.remove("absent", "tok1");
    assert_eq!(cache.get("logs", "tok2"), Some(&entry("two", 2)));
    cache.insert("logs", "tok1", entry("again", 4));
    assert_eq!(cache.get("logs", "tok1"), Some(&entry("again", 4)));
}

#[test]
fn cache_keeps_pairs_apart_whose_joined_text_is_equal() {
    let mut cache = CredentialCache::new();
    cache.insert("a:b", "c", entry("first", 1));
    cache.insert("a", "b:c", entry("second", 2));
    cache.insert("", "a:b:c", entry("third", 3));
    assert_eq!(cache.get("a:b", "c"), Some(&entry("first", 1)));
    assert_eq!(cache.get("a", "b:c"), Some(&entry("second", 2)));
    assert_eq!(cache.get("", "a:b:c"), Some(&entry("third", 3)));
    assert!(cache.get("a:b:c", "").is_none());
    cache.remove("a", "b:c");
    assert_eq!(cache.get("a:b", "c"), Some(&entry("first", 1)));
    assert!(cache.get("a", "b:c").is_none());
}
