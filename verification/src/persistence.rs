//! What goes into a snapshot and what comes back out of one: only entries
//! that have not expired are written, and only those that have not
//! expired by the time they are read are loaded.
use vstd::prelude::*;

use crate::clock::now_millis;
use crate::store::{
    clock_reading, distinct_keys, entries_map, is_expired, lemma_live_pairs, live, live_pairs, Entry, Store,
};

verus! {

/// The pairs whose entries have not expired at `now`, in their order.
pub fn live_entries_at(entries: &Vec<(String, Entry)>, now: i64) -> (r: Vec<(String, Entry)>)
    ensures
        r@ == live_pairs(entries@, now),
{
    let mut kept: Vec<(String, Entry)> = Vec::new();
    let mut i: usize = 0;
    assert(entries@.take(0) =~= Seq::<(String, Entry)>::empty());
    proof {
        reveal(Seq::filter);
    }
    while i < entries.len()
        invariant
            i <= entries@.len(),
            kept@ == live_pairs(entries@.take(i as int), now),
        decreases entries.len() - i,
    {
        let p = &entries[i];
        let expired = match p.1.expires_at {
            Some(t) => now >= t,
            None => false,
        };
        proof {
            assert(entries@.take(i + 1) =~= entries@.take(i as int).push(entries@[i as int]));
            entries@.take(i as int).lemma_filter_push(
                entries@[i as int],
                |q: (String, Entry)| !is_expired(q.1@, now),
            );
        }
        if !expired {
            kept.push((p.0.clone(), Entry { value: p.1.value.clone(), expires_at: p.1.expires_at }));
        }
        i += 1;
    }
    assert(entries@.take(entries@.len() as int) =~= entries@);
    kept
}

/// The entries of the store to write to a snapshot: those live at `now`,
/// each key once.
pub fn snapshot_entries_at(store: &Store, now: i64) -> (r: Vec<(String, Entry)>)
    ensures
        distinct_keys(r@),
        entries_map(r@) == live(store@, now),
{
    let all = store.entries();
    proof {
        lemma_live_pairs(all@, now);
    }
    live_entries_at(all, now)
}

/// The entries of the store to write to a snapshot: those live now, each
/// key once.
pub fn snapshot_entries(store: &Store) -> (r: Vec<(String, Entry)>)
    ensures
        distinct_keys(r@),
        exists|now: i64| clock_reading(now) && entries_map(r@) == #[trigger] live(store@, now),
{
    let now = now_millis();
    snapshot_entries_at(store, now)
}

/// The entries read from a snapshot that are still live now.
pub fn discard_expired(entries: Vec<(String, Entry)>) -> (r: Vec<(String, Entry)>)
    ensures
        exists|now: i64| clock_reading(now) && r@ == #[trigger] live_pairs(entries@, now),
{
    let now = now_millis();
    live_entries_at(&entries, now)
}

} // verus!
