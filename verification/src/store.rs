//! The in-memory key-value store, with per-key expiration.
//!
//! Times are milliseconds since the Unix epoch. A key whose expiration
//! time has been reached is treated as absent; it is removed when it is
//! next accessed (lazily) or by `cleanup_expired`.
use vstd::prelude::*;

use crate::clock::now_millis;

verus! {

/// A stored value and its optional expiration time.
#[derive(Clone, Debug, PartialEq, Eq)]
pub struct Entry {
    pub value: String,
    pub expires_at: Option<i64>,
}

/// An entry with its value seen as a character sequence.
pub struct EntryView {
    pub value: Seq<char>,
    pub expires_at: Option<i64>,
}

impl View for Entry {
    type V = EntryView;

    open spec fn view(&self) -> EntryView {
        EntryView { value: self.value@, expires_at: self.expires_at }
    }
}

/// Whether the entry has expired at time `now`.
pub open spec fn is_expired(e: EntryView, now: i64) -> bool {
    match e.expires_at {
        Some(t) => now >= t,
        None => false,
    }
}

/// Whether `k` is present and not expired at `now`.
pub open spec fn live_at(m: Map<Seq<char>, EntryView>, k: Seq<char>, now: i64) -> bool {
    m.contains_key(k) && !is_expired(m[k], now)
}

/// Whether `k` is present but expired at `now` (and so is dropped when
/// accessed).
pub open spec fn stale_at(m: Map<Seq<char>, EntryView>, k: Seq<char>, now: i64) -> bool {
    m.contains_key(k) && is_expired(m[k], now)
}

/// The map after an access to `k` at `now` dropped `k` if it had expired.
pub open spec fn purge(m: Map<Seq<char>, EntryView>, k: Seq<char>, now: i64) -> Map<
    Seq<char>,
    EntryView,
> {
    if stale_at(m, k, now) {
        m.remove(k)
    } else {
        m
    }
}

/// The entries of `m` that have not expired at `now`.
pub open spec fn live(m: Map<Seq<char>, EntryView>, now: i64) -> Map<Seq<char>, EntryView> {
    Map::new(|k: Seq<char>| live_at(m, k, now), |k: Seq<char>| m[k])
}

/// A seconds count as the signed 64-bit number it is converted to
/// (`as i64`): counts above `i64::MAX` wrap to negative values.
pub open spec fn signed_seconds(seconds: u64) -> int {
    if seconds <= i64::MAX {
        seconds as int
    } else {
        seconds - 0x1_0000_0000_0000_0000
    }
}

/// The largest number of seconds that makes a time span
/// (`i64::MAX / 1000`).
pub open spec fn max_span_seconds() -> int {
    9223372036854775
}

/// Whether a time-to-live of `seconds` can be turned into a time span:
/// its signed value lies within `max_span_seconds` of zero.
pub open spec fn ttl_in_range(seconds: u64) -> bool {
    -max_span_seconds() <= signed_seconds(seconds) <= max_span_seconds()
}

/// The earliest representable date and time, 1 January of year -262143
/// at 00:00 UTC, in milliseconds since the Unix epoch.
pub open spec fn earliest_instant() -> int {
    -8334601228800000
}

/// The latest representable date and time, 31 December of year 262142
/// at 23:59:59.999 UTC, in milliseconds since the Unix epoch.
pub open spec fn latest_instant() -> int {
    8210266876799999
}

/// Whether `now` is a time the wall clock can read: not before the Unix
/// epoch, and not after the latest representable date and time.
pub open spec fn clock_reading(now: i64) -> bool {
    0 <= now <= latest_instant()
}

/// Whether an expiration `seconds` after `now` can be formed: the seconds
/// make a time span, and adding it to `now` stays within the representable
/// dates and times.
pub open spec fn can_expire(now: i64, seconds: u64) -> bool {
    &&& ttl_in_range(seconds)
    &&& earliest_instant() <= now + signed_seconds(seconds) * 1000 <= latest_instant()
}

/// The expiration time `seconds` after `now` (meaningful where
/// `can_expire(now, seconds)` holds).
pub open spec fn expiry_after(now: i64, seconds: u64) -> i64 {
    (now + signed_seconds(seconds) * 1000) as i64
}

/// The time to live of `k` at `now`: -2 when absent or expired, -1 when
/// it never expires, else the whole seconds left.
pub open spec fn ttl_of(m: Map<Seq<char>, EntryView>, k: Seq<char>, now: i64) -> i64 {
    if !live_at(m, k, now) {
        -2i64
    } else {
        match m[k].expires_at {
            None => -1i64,
            Some(t) => ((t - now) / 1000) as i64,
        }
    }
}

/// The value stored under `k` at `now`, if any.
pub open spec fn lookup(m: Map<Seq<char>, EntryView>, k: Seq<char>, now: i64) -> Option<
    Seq<char>,
> {
    if live_at(m, k, now) {
        Some(m[k].value)
    } else {
        None
    }
}

/// The lazy-expiration count after one more dropped key (held at
/// `u64::MAX`).
pub open spec fn bump(n: u64) -> u64 {
    if n == u64::MAX {
        n
    } else {
        (n + 1) as u64
    }
}

/// The lazy-expiration count after an access to `k` at `now`.
pub open spec fn count_after(
    n: u64,
    m: Map<Seq<char>, EntryView>,
    k: Seq<char>,
    now: i64,
) -> u64 {
    if stale_at(m, k, now) {
        bump(n)
    } else {
        n
    }
}

/// The map that a sequence of key-entry pairs describes; a later pair for
/// a key replaces an earlier one.
pub open spec fn entries_map(s: Seq<(String, Entry)>) -> Map<Seq<char>, EntryView>
    decreases s.len(),
{
    if s.len() == 0 {
        Map::empty()
    } else {
        entries_map(s.drop_last()).insert(s.last().0@, s.last().1@)
    }
}

/// No two pairs share a key.
pub open spec fn distinct_keys(s: Seq<(String, Entry)>) -> bool {
    forall|i: int, j: int| 0 <= i < j < s.len() ==> #[trigger] s[i].0@ != #[trigger] s[j].0@
}

/// The pairs whose entries have not expired at `now`, in order.
pub open spec fn live_pairs(s: Seq<(String, Entry)>, now: i64) -> Seq<(String, Entry)> {
    s.filter(|p: (String, Entry)| !is_expired(p.1@, now))
}

proof fn lemma_contains(s: Seq<(String, Entry)>, k: Seq<char>)
    ensures
        entries_map(s).contains_key(k) <==> exists|i: int| 0 <= i < s.len() && #[trigger] s[i].0@ == k,
    decreases s.len(),
{
    if s.len() > 0 {
        let d = s.drop_last();
        lemma_contains(d, k);
        if entries_map(s).contains_key(k) && k != s.last().0@ {
            let i = choose|i: int| 0 <= i < d.len() && #[trigger] d[i].0@ == k;
            assert(s[i] == d[i]);
        }
        if exists|i: int| 0 <= i < s.len() && #[trigger] s[i].0@ == k {
            let i = choose|i: int| 0 <= i < s.len() && #[trigger] s[i].0@ == k;
            if i < s.len() - 1 {
                assert(d[i] == s[i]);
            }
        }
    }
}

/// A key-distinct sequence maps each of its keys to that key's entry.
pub proof fn lemma_index(s: Seq<(String, Entry)>, i: int)
    requires
        distinct_keys(s),
        0 <= i < s.len(),
    ensures
        entries_map(s).contains_key(s[i].0@),
        entries_map(s)[s[i].0@] == s[i].1@,
    decreases s.len(),
{
    let d = s.drop_last();
    if i < s.len() - 1 {
        assert(d[i] == s[i]);
        assert(distinct_keys(d));
        lemma_index(d, i);
        assert(s[i].0@ != s[s.len() - 1].0@);
    }
}

proof fn lemma_len(s: Seq<(String, Entry)>)
    requires
        distinct_keys(s),
    ensures
        entries_map(s).dom().finite(),
        entries_map(s).dom().len() == s.len(),
    decreases s.len(),
{
    if s.len() > 0 {
        let d = s.drop_last();
        assert(distinct_keys(d));
        lemma_len(d);
        lemma_contains(d, s.last().0@);
        if entries_map(d).contains_key(s.last().0@) {
            let i = choose|i: int| 0 <= i < d.len() && #[trigger] d[i].0@ == s.last().0@;
            assert(s[i] == d[i]);
            assert(s[i].0@ != s[s.len() - 1].0@);
        }
    }
}

proof fn lemma_push(s: Seq<(String, Entry)>, p: (String, Entry))
    requires
        distinct_keys(s),
        !entries_map(s).contains_key(p.0@),
    ensures
        distinct_keys(s.push(p)),
        entries_map(s.push(p)) == entries_map(s).insert(p.0@, p.1@),
{
    lemma_contains(s, p.0@);
    assert(s.push(p).drop_last() =~= s);
    assert forall|i: int, j: int| 0 <= i < j < s.push(p).len() implies #[trigger] s.push(p)[i].0@
        != #[trigger] s.push(p)[j].0@ by {
        if j == s.len() {
            assert(s.push(p)[i] == s[i]);
        } else {
            assert(s.push(p)[i] == s[i]);
            assert(s.push(p)[j] == s[j]);
        }
    }
}

proof fn lemma_remove(s: Seq<(String, Entry)>, i: int)
    requires
        distinct_keys(s),
        0 <= i < s.len(),
    ensures
        distinct_keys(s.remove(i)),
        entries_map(s.remove(i)) == entries_map(s).remove(s[i].0@),
    decreases s.len(),
{
    let r = s.remove(i);
    assert forall|a: int, b: int| 0 <= a < b < r.len() implies #[trigger] r[a].0@
        != #[trigger] r[b].0@ by {
        let a2 = if a < i { a } else { a + 1 };
        let b2 = if b < i { b } else { b + 1 };
        assert(r[a] == s[a2]);
        assert(r[b] == s[b2]);
    }
    let d = s.drop_last();
    let last = s.last();
    assert(distinct_keys(d));
    lemma_contains(d, last.0@);
    if entries_map(d).contains_key(last.0@) {
        let j = choose|j: int| 0 <= j < d.len() && #[trigger] d[j].0@ == last.0@;
        assert(s[j] == d[j]);
        assert(s[j].0@ != s[s.len() - 1].0@);
    }
    if i == s.len() - 1 {
        assert(r =~= d);
        assert(entries_map(s).remove(s[i].0@) =~= entries_map(d));
    } else {
        lemma_remove(d, i);
        assert(d.remove(i).push(last) =~= r);
        assert(r.drop_last() =~= d.remove(i));
        assert(r.last() == last);
        assert(d[i] == s[i]);
        assert(s[i].0@ != s[s.len() - 1].0@);
        assert(entries_map(r) =~= entries_map(s).remove(s[i].0@));
    }
}

proof fn lemma_update(s: Seq<(String, Entry)>, i: int, p: (String, Entry))
    requires
        distinct_keys(s),
        0 <= i < s.len(),
        p.0@ == s[i].0@,
    ensures
        distinct_keys(s.update(i, p)),
        entries_map(s.update(i, p)) == entries_map(s).insert(p.0@, p.1@),
    decreases s.len(),
{
    let u = s.update(i, p);
    assert forall|a: int, b: int| 0 <= a < b < u.len() implies #[trigger] u[a].0@
        != #[trigger] u[b].0@ by {
        assert(s[a].0@ != s[b].0@);
    }
    let d = s.drop_last();
    let last = s.last();
    assert(distinct_keys(d));
    if i == s.len() - 1 {
        assert(u.drop_last() =~= d);
        assert(entries_map(u) =~= entries_map(s).insert(p.0@, p.1@));
    } else {
        lemma_update(d, i, p);
        assert(u.drop_last() =~= d.update(i, p));
        assert(u.last() == last);
        assert(d[i] == s[i]);
        assert(s[i].0@ != s[s.len() - 1].0@);
        assert(entries_map(u) =~= entries_map(s).insert(p.0@, p.1@));
    }
}

/// The live pairs of a key-distinct sequence have distinct keys and
/// describe exactly the live part of its map.
pub proof fn lemma_live_pairs(s: Seq<(String, Entry)>, now: i64)
    requires
        distinct_keys(s),
    ensures
        distinct_keys(live_pairs(s, now)),
        entries_map(live_pairs(s, now)) == live(entries_map(s), now),
    decreases s.len(),
{
    let pred = |p: (String, Entry)| !is_expired(p.1@, now);
    if s.len() == 0 {
        reveal(Seq::filter);
        assert(live(entries_map(s), now) =~= Map::empty());
    } else {
        let d = s.drop_last();
        let last = s.last();
        assert(d.push(last) =~= s);
        assert(distinct_keys(d));
        lemma_live_pairs(d, now);
        d.lemma_filter_push(last, pred);
        lemma_contains(d, last.0@);
        if entries_map(d).contains_key(last.0@) {
            let j = choose|j: int| 0 <= j < d.len() && #[trigger] d[j].0@ == last.0@;
            assert(s[j] == d[j]);
            assert(s[j].0@ != s[s.len() - 1].0@);
        }
        if pred(last) {
            lemma_contains(live_pairs(d, now), last.0@);
            lemma_push(live_pairs(d, now), last);
            assert(live(entries_map(s), now) =~= live(entries_map(d), now).insert(
                last.0@,
                last.1@,
            ));
        } else {
            assert(live(entries_map(s), now) =~= live(entries_map(d), now));
        }
    }
}

/// The store: a map from keys to entries, and the number of keys dropped
/// on access since that number was last taken.
pub struct Store {
    data: Vec<(String, Entry)>,
    lazy_expired: u64,
}

impl View for Store {
    type V = Map<Seq<char>, EntryView>;

    closed spec fn view(&self) -> Map<Seq<char>, EntryView> {
        entries_map(self.data@)
    }
}

impl Store {
    #[verifier::type_invariant]
    spec fn keys_are_distinct(&self) -> bool {
        distinct_keys(self.data@)
    }

    /// The number of keys dropped on access since it was last taken.
    pub closed spec fn lazy_count(&self) -> u64 {
        self.lazy_expired
    }

    /// An empty store.
    pub fn new() -> (r: Store)
        ensures
            r@ == Map::<Seq<char>, EntryView>::empty(),
            r.lazy_count() == 0,
    {
        Store { data: Vec::new(), lazy_expired: 0 }
    }

    /// The position of `key`, if it is present (expired or not).
    fn find(&self, key: &String) -> (r: Option<usize>)
        ensures
            match r {
                Some(i) => {
                    &&& i < self.data@.len()
                    &&& self.data@[i as int].0@ == key@
                    &&& self@.contains_key(key@)
                    &&& self@[key@] == self.data@[i as int].1@
                },
                None => !self@.contains_key(key@),
            },
    {
        proof {
            use_type_invariant(self);
        }
        let mut i: usize = 0;
        while i < self.data.len()
            invariant
                i <= self.data@.len(),
                distinct_keys(self.data@),
                forall|j: int| 0 <= j < i ==> #[trigger] self.data@[j].0@ != key@,
            decreases self.data.len() - i,
        {
            if self.data[i].0 == *key {
                proof {
                    lemma_index(self.data@, i as int);
                }
                return Some(i);
            }
            i += 1;
        }
        proof {
            lemma_contains(self.data@, key@);
        }
        None
    }

    /// Stores `e` under `key`, replacing any entry it had.
    fn put(&mut self, key: String, e: Entry)
        ensures
            final(self)@ == old(self)@.insert(key@, e@),
            final(self).lazy_count() == old(self).lazy_count(),
    {
        proof {
            use_type_invariant(&*self);
        }
        let found = self.find(&key);
        let mut data: Vec<(String, Entry)> = Vec::new();
        std::mem::swap(&mut data, &mut self.data);
        match found {
            Some(i) => {
                proof {
                    lemma_update(data@, i as int, (key, e));
                }
                data.set(i, (key, e));
            },
            None => {
                proof {
                    lemma_push(data@, (key, e));
                }
                data.push((key, e));
            },
        }
        self.data = data;
    }

    /// Drops `key` if it has expired at `now`; says whether it did.
    fn remove_if_expired(&mut self, key: &String, now: i64) -> (r: bool)
        ensures
            r == stale_at(old(self)@, key@, now),
            final(self)@ == purge(old(self)@, key@, now),
            final(self).lazy_count() == count_after(old(self).lazy_count(), old(self)@, key@, now),
    {
        proof {
            use_type_invariant(&*self);
        }
        match self.find(key) {
            Some(i) => {
                let expired = match self.data[i].1.expires_at {
                    Some(t) => now >= t,
                    None => false,
                };
                if expired {
                    let mut data: Vec<(String, Entry)> = Vec::new();
                    std::mem::swap(&mut data, &mut self.data);
                    proof {
                        lemma_remove(data@, i as int);
                    }
                    data.remove(i);
                    self.data = data;
                    if self.lazy_expired < u64::MAX {
                        self.lazy_expired = self.lazy_expired + 1;
                    }
                }
                expired
            },
            None => false,
        }
    }
}

} // verus!

verus! {

impl Store {
    /// Stores `value` under `key` with no expiration, replacing any entry.
    pub fn set(&mut self, key: &str, value: &str)
        ensures
            final(self)@ == old(self)@.insert(
                key@,
                EntryView { value: value@, expires_at: None },
            ),
            final(self).lazy_count() == old(self).lazy_count(),
    {
        let e = Entry { value: String::from_str(value), expires_at: None };
        self.put(String::from_str(key), e);
    }

    /// The value of `key` at time `now`; an expired entry is dropped.
    pub fn get_at(&mut self, key: &str, now: i64) -> (r: Option<String>)
        ensures
            final(self)@ == purge(old(self)@, key@, now),
            final(self).lazy_count() == count_after(old(self).lazy_count(), old(self)@, key@, now),
            match r {
                Some(v) => lookup(old(self)@, key@, now) == Some(v@),
                None => lookup(old(self)@, key@, now) == None::<Seq<char>>,
            },
    {
        proof {
            use_type_invariant(&*self);
        }
        let k = String::from_str(key);
        self.remove_if_expired(&k, now);
        match self.find(&k) {
            Some(i) => Some(self.data[i].1.value.clone()),
            None => None,
        }
    }

    /// The value of `key` now; an expired entry is dropped.
    pub fn get(&mut self, key: &str) -> (r: Option<String>)
        ensures
            exists|now: i64|
                {
                    &&& clock_reading(now)
                    &&& final(self)@ == #[trigger] purge(old(self)@, key@, now)
                    &&& final(self).lazy_count() == count_after(
                        old(self).lazy_count(),
                        old(self)@,
                        key@,
                        now,
                    )
                    &&& match r {
                        Some(v) => lookup(old(self)@, key@, now) == Some(v@),
                        None => lookup(old(self)@, key@, now) == None::<Seq<char>>,
                    }
                },
    {
        let now = now_millis();
        self.get_at(key, now)
    }

    /// Removes `key` at time `now`; says whether a live entry was removed.
    pub fn del_at(&mut self, key: &str, now: i64) -> (r: bool)
        ensures
            r == live_at(old(self)@, key@, now),
            final(self)@ == old(self)@.remove(key@),
            final(self).lazy_count() == count_after(old(self).lazy_count(), old(self)@, key@, now),
    {
        proof {
            use_type_invariant(&*self);
        }
        let k = String::from_str(key);
        self.remove_if_expired(&k, now);
        proof {
            use_type_invariant(&*self);
        }
        match self.find(&k) {
            Some(i) => {
                let mut data: Vec<(String, Entry)> = Vec::new();
                std::mem::swap(&mut data, &mut self.data);
                proof {
                    lemma_remove(data@, i as int);
                }
                data.remove(i);
                self.data = data;
                true
            },
            None => {
                assert(old(self)@.remove(key@) =~= purge(old(self)@, key@, now));
                false
            },
        }
    }

    /// Removes `key` now; says whether a live entry was removed.
    pub fn del(&mut self, key: &str) -> (r: bool)
        ensures
            final(self)@ == old(self)@.remove(key@),
            exists|now: i64|
                {
                    &&& clock_reading(now)
                    &&& r == #[trigger] live_at(old(self)@, key@, now)
                    &&& final(self).lazy_count() == count_after(
                        old(self).lazy_count(),
                        old(self)@,
                        key@,
                        now,
                    )
                },
    {
        let now = now_millis();
        self.del_at(key, now)
    }

    /// Whether `key` holds a live entry at `now`; an expired entry is
    /// dropped.
    pub fn key_exists_at(&mut self, key: &str, now: i64) -> (r: bool)
        ensures
            r == live_at(old(self)@, key@, now),
            final(self)@ == purge(old(self)@, key@, now),
            final(self).lazy_count() == count_after(old(self).lazy_count(), old(self)@, key@, now),
    {
        let k = String::from_str(key);
        self.remove_if_expired(&k, now);
        self.find(&k).is_some()
    }

    /// Whether `key` holds a live entry now; an expired entry is dropped.
    pub fn key_exists(&mut self, key: &str) -> (r: bool)
        ensures
            exists|now: i64|
                {
                    &&& clock_reading(now)
                    &&& r == #[trigger] live_at(old(self)@, key@, now)
                    &&& final(self)@ == purge(old(self)@, key@, now)
                    &&& final(self).lazy_count() == count_after(
                        old(self).lazy_count(),
                        old(self)@,
                        key@,
                        now,
                    )
                },
    {
        let now = now_millis();
        self.key_exists_at(key, now)
    }

    /// Gives a live `key` the expiration `seconds` after `now` and returns
    /// true; returns false when `key` is absent or expired (and drops it).
    pub fn expire_at(&mut self, key: &str, seconds: u64, now: i64) -> (r: bool)
        requires
            live_at(old(self)@, key@, now) ==> can_expire(now, seconds),
        ensures
            r == live_at(old(self)@, key@, now),
            r ==> final(self)@ == old(self)@.insert(
                key@,
                EntryView {
                    value: old(self)@[key@].value,
                    expires_at: Some(expiry_after(now, seconds)),
                },
            ),
            !r ==> final(self)@ == old(self)@.remove(key@),
            final(self).lazy_count() == count_after(old(self).lazy_count(), old(self)@, key@, now),
    {
        let k = String::from_str(key);
        self.remove_if_expired(&k, now);
        match self.find(&k) {
            Some(i) => {
                let value = self.data[i].1.value.clone();
                let at = expiry_after_exec(now, seconds);
                self.put(k, Entry { value, expires_at: Some(at) });
                true
            },
            None => {
                assert(old(self)@.remove(key@) =~= purge(old(self)@, key@, now));
                false
            },
        }
    }

    /// Gives a live `key` an expiration `seconds` from now: `Some(true)`.
    /// When `key` is absent or expired it is dropped and the result is
    /// `Some(false)`. When `key` is live but no expiration `seconds` from
    /// now can be formed, nothing changes and the result is `None`.
    pub fn expire(&mut self, key: &str, seconds: u64) -> (r: Option<bool>)
        ensures
            exists|now: i64|
                #![trigger live_at(old(self)@, key@, now)]
                {
                    &&& clock_reading(now)
                    &&& match r {
                        Some(b) => {
                            &&& live_at(old(self)@, key@, now) ==> can_expire(now, seconds)
                            &&& b == live_at(old(self)@, key@, now)
                            &&& b ==> final(self)@ == old(self)@.insert(
                                key@,
                                EntryView {
                                    value: old(self)@[key@].value,
                                    expires_at: Some(expiry_after(now, seconds)),
                                },
                            )
                            &&& !b ==> final(self)@ == old(self)@.remove(key@)
                            &&& final(self).lazy_count() == count_after(
                                old(self).lazy_count(),
                                old(self)@,
                                key@,
                                now,
                            )
                        },
                        None => {
                            &&& live_at(old(self)@, key@, now)
                            &&& !can_expire(now, seconds)
                            &&& final(self)@ == old(self)@
                            &&& final(self).lazy_count() == old(self).lazy_count()
                        },
                    }
                },
    {
        let now = now_millis();
        if self.has_live_key_at(key, now) && !expiry_formable(now, seconds) {
            return None;
        }
        Some(self.expire_at(key, seconds, now))
    }

    /// The time to live of `key` at `now` (see `ttl_of`); an expired entry
    /// is dropped.
    pub fn ttl_at(&mut self, key: &str, now: i64) -> (r: i64)
        ensures
            r == ttl_of(old(self)@, key@, now),
            final(self)@ == purge(old(self)@, key@, now),
            final(self).lazy_count() == count_after(old(self).lazy_count(), old(self)@, key@, now),
    {
        let k = String::from_str(key);
        self.remove_if_expired(&k, now);
        match self.find(&k) {
            None => -2,
            Some(i) => match self.data[i].1.expires_at {
                None => -1,
                Some(t) => {
                    let left: i128 = (t as i128) - (now as i128);
                    (left / 1000) as i64
                },
            },
        }
    }

    /// The time to live of `key` now (see `ttl_of`); an expired entry is
    /// dropped.
    pub fn ttl(&mut self, key: &str) -> (r: i64)
        ensures
            exists|now: i64|
                {
                    &&& clock_reading(now)
                    &&& r == #[trigger] ttl_of(old(self)@, key@, now)
                    &&& final(self)@ == purge(old(self)@, key@, now)
                    &&& final(self).lazy_count() == count_after(
                        old(self).lazy_count(),
                        old(self)@,
                        key@,
                        now,
                    )
                },
    {
        let now = now_millis();
        self.ttl_at(key, now)
    }

    /// Stores `value` under `key`, expiring `seconds` after `now`.
    pub fn setex_at(&mut self, key: &str, seconds: u64, value: &str, now: i64)
        requires
            can_expire(now, seconds),
        ensures
            final(self)@ == old(self)@.insert(
                key@,
                EntryView { value: value@, expires_at: Some(expiry_after(now, seconds)) },
            ),
            final(self).lazy_count() == old(self).lazy_count(),
    {
        let at = expiry_after_exec(now, seconds);
        self.put(String::from_str(key), Entry { value: String::from_str(value), expires_at: Some(at) });
    }

    /// Stores `value` under `key`, expiring `seconds` from now, and returns
    /// true; when adding `seconds` to now leaves the representable dates and
    /// times, nothing is stored and the result is false.
    pub fn setex(&mut self, key: &str, seconds: u64, value: &str) -> (r: bool)
        requires
            ttl_in_range(seconds),
        ensures
            exists|now: i64|
                {
                    &&& clock_reading(now)
                    &&& r == #[trigger] can_expire(now, seconds)
                    &&& r ==> final(self)@ == old(self)@.insert(
                        key@,
                        EntryView { value: value@, expires_at: Some(expiry_after(now, seconds)) },
                    )
                    &&& !r ==> final(self)@ == old(self)@
                },
            final(self).lazy_count() == old(self).lazy_count(),
    {
        let now = now_millis();
        if !expiry_formable(now, seconds) {
            return false;
        }
        self.setex_at(key, seconds, value, now);
        true
    }
}

impl Store {
    /// Drops every entry that has expired at `now`; returns how many.
    pub fn cleanup_expired_at(&mut self, now: i64) -> (r: usize)
        ensures
            final(self)@ == live(old(self)@, now),
            old(self)@.dom().finite(),
            r == old(self)@.dom().len() - final(self)@.dom().len(),
            final(self).lazy_count() == old(self).lazy_count(),
    {
        proof {
            use_type_invariant(&*self);
        }
        let mut kept: Vec<(String, Entry)> = Vec::new();
        let mut removed: usize = 0;
        let mut i: usize = 0;
        assert(self.data@.take(0) =~= Seq::<(String, Entry)>::empty());
        proof {
            reveal(Seq::filter);
        }
        while i < self.data.len()
            invariant
                i <= self.data@.len(),
                kept@ == live_pairs(self.data@.take(i as int), now),
                removed + kept@.len() == i,
            decreases self.data.len() - i,
        {
            let p = &self.data[i];
            let expired = match p.1.expires_at {
                Some(t) => now >= t,
                None => false,
            };
            proof {
                assert(self.data@.take(i + 1) =~= self.data@.take(i as int).push(self.data@[i as int]));
                self.data@.take(i as int).lemma_filter_push(
                    self.data@[i as int],
                    |q: (String, Entry)| !is_expired(q.1@, now),
                );
            }
            if expired {
                removed += 1;
            } else {
                let copy = (p.0.clone(), Entry { value: p.1.value.clone(), expires_at: p.1.expires_at });
                kept.push(copy);
            }
            i += 1;
        }
        proof {
            assert(self.data@.take(self.data@.len() as int) =~= self.data@);
            lemma_live_pairs(self.data@, now);
            lemma_len(self.data@);
            lemma_len(kept@);
        }
        self.data = kept;
        removed
    }

    /// Drops every entry that has expired now; returns how many.
    pub fn cleanup_expired(&mut self) -> (r: usize)
        ensures
            old(self)@.dom().finite(),
            exists|now: i64|
                {
                    &&& clock_reading(now)
                    &&& final(self)@ == #[trigger] live(old(self)@, now)
                    &&& r == old(self)@.dom().len() - final(self)@.dom().len()
                },
            final(self).lazy_count() == old(self).lazy_count(),
    {
        let now = now_millis();
        self.cleanup_expired_at(now)
    }

    /// The number of keys live at `now`.
    pub fn len_at(&self, now: i64) -> (r: usize)
        ensures
            live(self@, now).dom().finite(),
            r == live(self@, now).dom().len(),
    {
        proof {
            use_type_invariant(self);
        }
        let mut count: usize = 0;
        let mut i: usize = 0;
        assert(self.data@.take(0) =~= Seq::<(String, Entry)>::empty());
        proof {
            reveal(Seq::filter);
        }
        while i < self.data.len()
            invariant
                i <= self.data@.len(),
                count == live_pairs(self.data@.take(i as int), now).len(),
            decreases self.data.len() - i,
        {
            let expired = match self.data[i].1.expires_at {
                Some(t) => now >= t,
                None => false,
            };
            proof {
                assert(self.data@.take(i + 1) =~= self.data@.take(i as int).push(self.data@[i as int]));
                self.data@.take(i as int).lemma_filter_push(
                    self.data@[i as int],
                    |q: (String, Entry)| !is_expired(q.1@, now),
                );
                self.data@.take(i as int).lemma_filter_len(|q: (String, Entry)| !is_expired(q.1@, now));
            }
            if !expired {
                count += 1;
            }
            i += 1;
        }
        proof {
            assert(self.data@.take(self.data@.len() as int) =~= self.data@);
            lemma_live_pairs(self.data@, now);
            lemma_len(live_pairs(self.data@, now));
        }
        count
    }

    /// The number of keys live now.
    pub fn len(&self) -> (r: usize)
        ensures
            exists|now: i64|
                {
                    &&& clock_reading(now)
                    &&& live(self@, now).dom().finite()
                    &&& r == (#[trigger] live(self@, now)).dom().len()
                },
    {
        let now = now_millis();
        self.len_at(now)
    }

    /// Whether no key is live now.
    pub fn is_empty(&self) -> (r: bool)
        ensures
            exists|now: i64|
                {
                    &&& clock_reading(now)
                    &&& live(self@, now).dom().finite()
                    &&& r == ((#[trigger] live(self@, now)).dom().len() == 0)
                },
    {
        self.len() == 0
    }

    /// Whether `key` holds an entry that is live at `now`.
    pub(crate) fn has_live_key_at(&self, key: &str, now: i64) -> (r: bool)
        ensures
            r == live_at(self@, key@, now),
    {
        let k = String::from_str(key);
        match self.find(&k) {
            Some(i) => match self.data[i].1.expires_at {
                Some(t) => now < t,
                None => true,
            },
            None => false,
        }
    }

    /// All stored pairs, expired ones included; no key occurs twice.
    pub fn entries(&self) -> (r: &Vec<(String, Entry)>)
        ensures
            entries_map(r@) == self@,
            distinct_keys(r@),
    {
        proof {
            use_type_invariant(self);
        }
        &self.data
    }

    /// Replaces the whole contents with the given pairs (a later pair for
    /// a key replaces an earlier one).
    pub fn load_entries(&mut self, entries: Vec<(String, Entry)>)
        ensures
            final(self)@ == entries_map(entries@),
            final(self).lazy_count() == old(self).lazy_count(),
    {
        self.data = Vec::new();
        let mut i: usize = 0;
        assert(entries@.take(0) =~= Seq::<(String, Entry)>::empty());
        while i < entries.len()
            invariant
                i <= entries@.len(),
                self@ == entries_map(entries@.take(i as int)),
                self.lazy_count() == old(self).lazy_count(),
            decreases entries.len() - i,
        {
            let p = &entries[i];
            let copy = Entry { value: p.1.value.clone(), expires_at: p.1.expires_at };
            self.put(p.0.clone(), copy);
            assert(entries@.take(i + 1).drop_last() =~= entries@.take(i as int));
            i += 1;
        }
        assert(entries@.take(entries@.len() as int) =~= entries@);
    }

    /// Returns the number of keys dropped on access since the last call,
    /// and starts counting again from zero.
    pub fn take_lazy_expired_count(&mut self) -> (r: u64)
        ensures
            r == old(self).lazy_count(),
            final(self).lazy_count() == 0,
            final(self)@ == old(self)@,
    {
        proof {
            use_type_invariant(&*self);
        }
        let n = self.lazy_expired;
        self.lazy_expired = 0;
        n
    }
}

/// Whether a time-to-live of `seconds` can be turned into a time span
/// (see `ttl_in_range`).
pub fn ttl_seconds_ok(seconds: u64) -> (r: bool)
    ensures
        r == ttl_in_range(seconds),
{
    seconds <= 9223372036854775 || seconds >= 18437520701672696841
}

/// Whether an expiration `seconds` after `now` can be formed (see
/// `can_expire`).
pub fn expiry_formable(now: i64, seconds: u64) -> (r: bool)
    ensures
        r == can_expire(now, seconds),
{
    if !ttl_seconds_ok(seconds) {
        return false;
    }
    let signed: i128 = if seconds <= i64::MAX as u64 {
        seconds as i128
    } else {
        (seconds as i128) - 0x1_0000_0000_0000_0000i128
    };
    let t: i128 = (now as i128) + signed * 1000;
    -8334601228800000i128 <= t && t <= 8210266876799999i128
}

/// The expiration time `seconds` after `now` (see `expiry_after`).
pub fn expiry_after_exec(now: i64, seconds: u64) -> (r: i64)
    requires
        can_expire(now, seconds),
    ensures
        r == expiry_after(now, seconds),
{
    let signed: i128 = if seconds <= i64::MAX as u64 {
        seconds as i128
    } else {
        (seconds as i128) - 0x1_0000_0000_0000_0000i128
    };
    let t: i128 = (now as i128) + signed * 1000;
    t as i64
}

} // verus!
