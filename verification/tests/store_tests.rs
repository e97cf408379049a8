use chrono::{DateTime, Utc};
use irondb::store::{Entry, Store};

const T0: i64 = 1_700_000_000_000;

#[test]
fn set_stores_value_and_get_returns_it() {
    let mut store = Store::new();
    store.set("name", "Junan");
    assert_eq!(store.get("name"), Some("Junan".to_string()));
}

#[test]
fn set_and_get_round_trip() {
    let mut store = Store::new();
    store.set("name", "Junan");
    assert_eq!(store.get("name"), Some("Junan".to_string()));
}

#[test]
fn store_tests_get_missing_key_returns_none() {
    let mut store = Store::new();
    assert_eq!(store.get("missing"), None);
}

#[test]
fn store_get_missing_key_returns_none() {
    let mut store = Store::new();
    assert_eq!(store.get("missing"), None);
}

#[test]
fn del_removes_key() {
    let mut store = Store::new();
    store.set("name", "Junan");
    assert!(store.del("name"));
    assert_eq!(store.get("name"), None);
}

#[test]
fn del_removes_existing_key() {
    let mut store = Store::new();
    store.set("name", "Junan");
    assert!(store.del("name"));
    assert!(!store.key_exists("name"));
}

#[test]
fn store_tests_del_missing_key_returns_false() {
    let mut store = Store::new();
    assert!(!store.del("missing"));
}

#[test]
fn store_del_missing_key_returns_false() {
    let mut store = Store::new();
    assert!(!store.del("missing"));
}

#[test]
fn exists_returns_true_for_present_key() {
    let mut store = Store::new();
    store.set("name", "Junan");
    assert!(store.key_exists("name"));
}

#[test]
fn exists_returns_false_for_missing_key() {
    let mut store = Store::new();
    assert!(!store.key_exists("missing"));
}

#[test]
fn exists_reflects_presence() {
    let mut store = Store::new();
    store.set("name", "Junan");
    assert!(store.key_exists("name"));
    assert!(!store.key_exists("missing"));
}

#[test]
fn ttl_returns_negative_two_for_missing_key() {
    let mut store = Store::new();
    assert_eq!(store.ttl("missing"), -2);
}

#[test]
fn ttl_returns_negative_one_without_expiry() {
    let mut store = Store::new();
    store.set("name", "Junan");
    assert_eq!(store.ttl("name"), -1);
}

#[test]
fn expire_sets_ttl_and_ttl_returns_remaining_seconds() {
    let mut store = Store::new();
    store.set("session", "abc123");
    assert_eq!(store.expire("session", 60), Some(true));

    let ttl = store.ttl("session");
    assert!((58..=60).contains(&ttl));
}

#[test]
fn expire_and_ttl_semantics() {
    let mut store = Store::new();
    assert_eq!(store.ttl("missing"), -2);

    store.set("session", "abc");
    assert_eq!(store.ttl("session"), -1);

    assert_eq!(store.expire("session", 60), Some(true));
    let ttl = store.ttl("session");
    assert!((58..=60).contains(&ttl));
}

#[test]
fn setex_stores_value_with_expiry() {
    let mut store = Store::new();
    store.setex("session:1", 60, "abc123");
    assert_eq!(store.get("session:1"), Some("abc123".to_string()));
}

#[test]
fn setex_sets_value_with_ttl() {
    let mut store = Store::new();
    store.setex("session", 30, "token");
    assert_eq!(store.get("session"), Some("token".to_string()));
    let ttl = store.ttl("session");
    assert!((28..=30).contains(&ttl));
}

#[test]
fn expired_key_disappears_on_get() {
    let mut store = Store::new();
    store.setex_at("temp", 1, "value", T0);
    let later = T0 + 2_000;

    assert_eq!(store.get_at("temp", later), None);
    assert!(!store.key_exists_at("temp", later));
    assert_eq!(store.ttl_at("temp", later), -2);
}

#[test]
fn expired_key_is_removed_on_access() {
    let mut store = Store::new();
    store.setex_at("temp", 1, "gone", T0);
    let later = T0 + 2_000;

    assert_eq!(store.get_at("temp", later), None);
    assert!(!store.key_exists_at("temp", later));
    assert_eq!(store.ttl_at("temp", later), -2);
}

#[test]
fn cleanup_expired_removes_only_stale_keys() {
    let mut store = Store::new();
    store.set("keep", "yes");
    store.setex_at("drop", 1, "no", T0);
    let later = T0 + 2_000;

    let removed = store.cleanup_expired_at(later);
    assert_eq!(removed, 1);
    assert_eq!(store.len_at(later), 1);
    assert!(store.key_exists_at("keep", later));
    assert!(!store.key_exists_at("drop", later));
}

#[test]
fn cleanup_expired_removes_stale_keys() {
    let mut store = Store::new();
    store.set("persistent", "keep");
    store.setex_at("temp", 1, "gone", T0);
    let later = T0 + 2_000;

    let removed = store.cleanup_expired_at(later);
    assert_eq!(removed, 1);
    assert_eq!(store.len_at(later), 1);
    assert!(store.key_exists_at("persistent", later));
}

#[test]
fn expiry_is_exact_to_the_millisecond() {
    let mut store = Store::new();
    store.setex_at("k", 10, "v", T0);
    assert_eq!(store.ttl_at("k", T0), 10);
    assert_eq!(store.ttl_at("k", T0 + 1), 9);
    assert_eq!(store.ttl_at("k", T0 + 9_999), 0);
    assert_eq!(store.get_at("k", T0 + 9_999), Some("v".to_string()));
    assert_eq!(store.get_at("k", T0 + 10_000), None);
    assert_eq!(store.take_lazy_expired_count(), 1);
    assert_eq!(store.take_lazy_expired_count(), 0);
}

#[test]
fn zero_seconds_expires_at_once() {
    let mut store = Store::new();
    store.setex_at("k", 0, "v", T0);
    assert_eq!(store.get_at("k", T0), None);
    assert_eq!(store.ttl_at("k", T0), -2);
}

#[test]
fn expire_on_missing_or_expired_key_returns_false() {
    let mut store = Store::new();
    assert!(!store.expire_at("missing", 5, T0));
    store.setex_at("old", 1, "v", T0);
    assert!(!store.expire_at("old", 5, T0 + 1_000));
    assert_eq!(store.take_lazy_expired_count(), 1);
    assert_eq!(store.len_at(T0), 0);
}

#[test]
fn set_clears_an_expiration() {
    let mut store = Store::new();
    store.setex_at("k", 5, "a", T0);
    store.set("k", "b");
    assert_eq!(store.ttl_at("k", T0 + 100_000), -1);
    assert_eq!(store.get_at("k", T0 + 100_000), Some("b".to_string()));
}

#[test]
fn huge_seconds_wrap_to_negative_spans() {
    let mut store = Store::new();
    store.set("k", "v");
    // u64::MAX converts to -1 seconds: the key expires a second in the past.
    assert!(store.expire_at("k", u64::MAX, T0));
    assert_eq!(store.get_at("k", T0), None);
}

#[test]
fn len_counts_only_live_keys_and_is_empty_follows() {
    let mut store = Store::new();
    assert!(store.is_empty());
    store.set("a", "1");
    store.setex_at("b", 1, "2", T0);
    assert_eq!(store.len_at(T0), 2);
    assert_eq!(store.len_at(T0 + 1_000), 1);
    assert!(!store.is_empty());
    assert_eq!(store.entries().len(), 2);
}

#[test]
fn load_entries_replaces_contents_and_later_pairs_win() {
    let mut store = Store::new();
    store.set("old", "x");
    store.load_entries(vec![
        ("a".to_string(), Entry { value: "1".into(), expires_at: None }),
        ("a".to_string(), Entry { value: "2".into(), expires_at: None }),
        ("b".to_string(), Entry { value: "3".into(), expires_at: Some(T0) }),
    ]);
    assert_eq!(store.get_at("old", T0 - 1), None);
    assert_eq!(store.get_at("a", T0), Some("2".to_string()));
    assert_eq!(store.get_at("b", T0 - 1), Some("3".to_string()));
    assert_eq!(store.entries().len(), 2);
    assert_eq!(store.entries()[1].0, "b");
}

#[test]
fn expire_on_expired_key_with_huge_seconds_answers_false() {
    let mut store = Store::new();
    store.setex_at("old", 1, "v", 0);
    // The key expired long ago: it is dropped and no time span is formed.
    assert_eq!(store.expire("old", 9_223_372_036_854_776), Some(false));
    assert_eq!(store.entries().len(), 0);
    assert_eq!(store.take_lazy_expired_count(), 1);
}

#[test]
fn expire_on_live_key_beyond_the_date_range_is_abandoned() {
    let mut store = Store::new();
    store.set("k", "v");
    assert_eq!(store.expire("k", 9_223_372_036_854_776), None);
    assert_eq!(store.expire("k", 9_000_000_000_000), None);
    assert_eq!(store.ttl("k"), -1);
    assert_eq!(store.expire("k", 8_000_000_000_000), Some(true));
}

#[test]
fn setex_beyond_the_date_range_stores_nothing() {
    let mut store = Store::new();
    assert!(!store.setex("k", 9_000_000_000_000, "v"));
    assert_eq!(store.get("k"), None);
    assert!(store.setex("k", 60, "v"));
    assert_eq!(store.get("k"), Some("v".to_string()));
}

#[test]
fn representable_dates_match_the_date_library() {
    assert_eq!(DateTime::<Utc>::MAX_UTC.timestamp_millis(), 8_210_266_876_799_999);
    assert_eq!(DateTime::<Utc>::MIN_UTC.timestamp_millis(), -8_334_601_228_800_000);
}
