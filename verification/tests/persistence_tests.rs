use irondb::persistence::{discard_expired, live_entries_at, snapshot_entries, snapshot_entries_at};
use irondb::store::{Entry, Store};

const T0: i64 = 1_700_000_000_000;

fn entry(value: &str, expires_at: Option<i64>) -> Entry {
    Entry { value: value.into(), expires_at }
}

#[test]
fn snapshot_holds_live_entries() {
    let mut store = Store::new();
    store.set("name", "Junan");
    let saved = snapshot_entries(&store);
    assert_eq!(saved, vec![("name".to_string(), entry("Junan", None))]);
}

#[test]
fn snapshot_excludes_expired_keys() {
    let mut store = Store::new();
    store.set("keep", "yes");
    store.setex_at("drop", 1, "no", T0);
    let saved = snapshot_entries_at(&store, T0 + 2_000);
    assert_eq!(saved, vec![("keep".to_string(), entry("yes", None))]);

    let mut reloaded = Store::new();
    reloaded.load_entries(saved);
    assert_eq!(reloaded.get_at("keep", T0 + 2_000), Some("yes".to_string()));
    assert_eq!(reloaded.get_at("drop", T0 + 2_000), None);
}

#[test]
fn loading_filters_expired_entries() {
    let entries = vec![
        ("expired".to_string(), entry("gone", Some(T0 - 10_000))),
        ("live".to_string(), entry("here", None)),
        ("later".to_string(), entry("soon", Some(T0 + 10_000))),
    ];
    let kept = live_entries_at(&entries, T0);
    assert_eq!(
        kept,
        vec![
            ("live".to_string(), entry("here", None)),
            ("later".to_string(), entry("soon", Some(T0 + 10_000))),
        ]
    );
    // Entries that expired long ago are dropped when read now.
    let now_kept = discard_expired(vec![
        ("ancient".to_string(), entry("x", Some(0))),
        ("forever".to_string(), entry("y", None)),
    ]);
    assert_eq!(now_kept, vec![("forever".to_string(), entry("y", None))]);
}
