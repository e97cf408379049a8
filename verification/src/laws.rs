//! Properties of the database that hold across operations and states.
use vstd::prelude::*;

use vstd::wrapping::u64_specs::{wrapping_add, wrapping_sub};

use crate::command::{parse_spec, value_of, CommandView};
use crate::protocol::{step, wire, ResponseView, ServerState};

use crate::protocol::reply;
use crate::store::{
    bump, can_expire, count_after, distinct_keys, entries_map, expiry_after, is_expired,
    lemma_index, lemma_live_pairs, live, live_at, live_pairs, lookup, max_span_seconds, purge,
    stale_at, ttl_of, Entry, EntryView,
};
use crate::text::{upper, words};

verus! {

/// A value just set can be read back at any time, and it never expires.
pub proof fn law_set_then_get(m: Map<Seq<char>, EntryView>, k: Seq<char>, v: Seq<char>, now: i64)
    ensures
        lookup(m.insert(k, EntryView { value: v, expires_at: None }), k, now) == Some(v),
        ttl_of(m.insert(k, EntryView { value: v, expires_at: None }), k, now) == -1,
{
}

/// After a key is deleted it cannot be read, and its time to live is -2.
pub proof fn law_del_then_get(m: Map<Seq<char>, EntryView>, k: Seq<char>, now: i64)
    ensures
        lookup(m.remove(k), k, now) == None::<Seq<char>>,
        !live_at(m.remove(k), k, now),
        ttl_of(m.remove(k), k, now) == -2,
{
}

/// A key exists exactly when reading it gives a value, and its time to
/// live is -2 exactly when it does not exist.
pub proof fn law_exists_iff_readable(m: Map<Seq<char>, EntryView>, k: Seq<char>, now: i64)
    ensures
        live_at(m, k, now) <==> lookup(m, k, now) is Some,
        !live_at(m, k, now) <==> ttl_of(m, k, now) == -2,
{
    if live_at(m, k, now) {
        match m[k].expires_at {
            None => {},
            Some(t) => {
                assert(now < t);
                assert((t - now) / 1000 >= 0) by (nonlinear_arith)
                    requires
                        now < t,
                ;
            },
        }
    }
}

/// A key whose expiration time has come reads as absent, reports a time to
/// live of -2, and is dropped (and counted) by the access.
pub proof fn law_expired_key_vanishes(
    m: Map<Seq<char>, EntryView>,
    k: Seq<char>,
    now: i64,
    n: u64,
)
    requires
        stale_at(m, k, now),
    ensures
        lookup(m, k, now) == None::<Seq<char>>,
        ttl_of(m, k, now) == -2,
        !purge(m, k, now).contains_key(k),
        count_after(n, m, k, now) == bump(n),
{
}

/// A key given an expiration `seconds` from `now` reports `seconds` as its
/// time to live at once, counts down without going below zero while it
/// lives, and is gone from its expiration time on. With zero seconds it is
/// gone at once.
pub proof fn law_ttl_counts_down(
    m: Map<Seq<char>, EntryView>,
    k: Seq<char>,
    v: Seq<char>,
    seconds: u64,
    now: i64,
    later: i64,
)
    requires
        seconds <= max_span_seconds(),
        now + seconds * 1000 <= i64::MAX,
        now <= later,
    ensures
        ({
            let m2 = m.insert(k, EntryView { value: v, expires_at: Some(expiry_after(now, seconds)) });
            &&& seconds > 0 ==> ttl_of(m2, k, now) == seconds
            &&& later < now + seconds * 1000 ==> 0 <= ttl_of(m2, k, later) <= seconds
            &&& later >= now + seconds * 1000 ==> ttl_of(m2, k, later) == -2 && lookup(
                m2,
                k,
                later,
            ) == None::<Seq<char>>
        }),
{
    let t = now + seconds * 1000;
    assert(expiry_after(now, seconds) == t);
    assert((t - now) / 1000 == seconds as int) by (nonlinear_arith)
        requires
            t == now + seconds * 1000,
    ;
    if later < t {
        assert(0 <= (t - later) / 1000 <= seconds) by (nonlinear_arith)
            requires
                t == now + seconds * 1000,
                now <= later < t,
        ;
    }
}

/// A cleanup pass drops only expired keys: every read at the same time
/// gives what it gave before, and a second pass changes nothing.
pub proof fn law_cleanup_drops_only_stale(m: Map<Seq<char>, EntryView>, k: Seq<char>, now: i64)
    ensures
        lookup(live(m, now), k, now) == lookup(m, k, now),
        ttl_of(live(m, now), k, now) == ttl_of(m, k, now),
        live(live(m, now), now) == live(m, now),
{
    assert(live(live(m, now), now) =~= live(m, now));
}

/// Writing a snapshot and loading it later gives back exactly the keys
/// still live at load time, with their values and expirations.
pub proof fn law_snapshot_round_trip(s: Seq<(String, crate::store::Entry)>, saved: i64, loaded: i64)
    requires
        distinct_keys(s),
        saved <= loaded,
    ensures
        entries_map(live_pairs(live_pairs(s, saved), loaded)) == live(entries_map(s), loaded),
{
    lemma_live_pairs(s, saved);
    lemma_live_pairs(live_pairs(s, saved), loaded);
    assert forall|k: Seq<char>| #[trigger] live_at(entries_map(s), k, loaded) implies live_at(
        entries_map(s),
        k,
        saved,
    ) by {
        let e = entries_map(s)[k];
        if is_expired(e, saved) {
            assert(is_expired(e, loaded));
        }
    }
    assert(live(live(entries_map(s), saved), loaded) =~= live(entries_map(s), loaded));
}

/// Every reply sent to a client is one or more characters ending in a
/// newline.
pub proof fn law_reply_ends_with_newline(r: ResponseView)
    ensures
        wire(r).len() > 0,
        wire(r).last() == '\n',
{
}

/// Every key dropped on access while a command runs is recorded in the
/// statistics by the end of that command: the store's pending count stays
/// zero, and the expired-key counter grows by one exactly when the
/// accessed key had expired.
pub proof fn law_expirations_are_counted(
    cmd: CommandView,
    s: ServerState,
    path: Option<Seq<char>>,
    now: i64,
    uptime: u64,
)
    requires
        s.lazy == 0,
    ensures
        step(cmd, s, path, now, uptime).0.lazy == 0,
        match cmd {
            CommandView::Get { key }
            | CommandView::Del { key }
            | CommandView::Exists { key }
            | CommandView::Expire { key, .. }
            | CommandView::Ttl { key } => step(cmd, s, path, now, uptime).0.stats.expired_keys
                == wrapping_add(
                s.stats.expired_keys,
                if stale_at(s.store, key, now) {
                    1
                } else {
                    0
                },
            ),
            _ => step(cmd, s, path, now, uptime).0.stats == s.stats,
        },
{
}

/// A counter after `n` successive increments by one, as `n` calls of
/// `ServerStats::command_processed` (or `client_connected`) leave it.
pub open spec fn after_increments(x: u64, n: nat) -> u64
    decreases n,
{
    if n == 0 {
        x
    } else {
        wrapping_add(after_increments(x, (n - 1) as nat), 1)
    }
}

/// `n` increments of a counter add `n`, modulo 2^64: no increment is lost.
pub proof fn law_increments_accumulate(x: u64, n: nat)
    ensures
        after_increments(x, n) == (x + n) % 0x1_0000_0000_0000_0000,
    decreases n,
{
    if n > 0 {
        law_increments_accumulate(x, (n - 1) as nat);
        let a: int = x + n - 1;
        let r = a % 0x1_0000_0000_0000_0000;
        assert((a + 1) % 0x1_0000_0000_0000_0000 == if r + 1 == 0x1_0000_0000_0000_0000 {
            0
        } else {
            r + 1
        }) by (nonlinear_arith)
            requires
                a >= 0,
                r == a % 0x1_0000_0000_0000_0000,
        ;
    }
}

/// A client disconnecting undoes the count of its connecting.
pub proof fn law_disconnect_undoes_connect(n: u64)
    ensures
        wrapping_sub(wrapping_add(n, 1), 1) == n,
{
}

/// The command word is read without regard to ASCII letter case: two lines
/// with the same words apart from the case of the first one mean the same.
pub proof fn law_command_word_case_insensitive(a: Seq<char>, b: Seq<char>)
    requires
        words(a).len() == words(b).len(),
        words(a).len() > 0,
        upper(words(a)[0]) == upper(words(b)[0]),
        forall|i: int| 1 <= i < words(a).len() ==> #[trigger] words(a)[i] == words(b)[i],
    ensures
        parse_spec(a) == parse_spec(b),
{
    let wa = words(a);
    let wb = words(b);
    if wa.len() > 1 {
        assert(wa[1] == wb[1]);
    }
    if wa.len() > 2 {
        assert(wa[2] == wb[2]);
        assert(wa.skip(2) =~= wb.skip(2));
        assert(value_of(wa, 2) == value_of(wb, 2));
    }
    if wa.len() > 3 {
        assert(wa.skip(3) =~= wb.skip(3));
        assert(value_of(wa, 3) == value_of(wb, 3));
    }
}

/// A key stored with `SETEX` at `set_at` is read back by `GET` until its
/// expiration time, and from then on `GET` answers nil and drops it.
pub proof fn law_get_after_setex(
    s: ServerState,
    key: Seq<char>,
    value: Seq<char>,
    seconds: u64,
    path: Option<Seq<char>>,
    set_at: i64,
    read_at: i64,
    uptime: u64,
)
    requires
        can_expire(set_at, seconds),
    ensures
        ({
            let s1 = step(CommandView::SetEx { key, seconds, value }, s, path, set_at, uptime).0;
            let (s2, a) = step(CommandView::Get { key }, s1, path, read_at, uptime);
            &&& read_at >= expiry_after(set_at, seconds) ==> {
                &&& a == reply(ResponseView::Bulk(None))
                &&& !s2.store.contains_key(key)
            }
            &&& read_at < expiry_after(set_at, seconds) ==> {
                &&& a == reply(ResponseView::Bulk(Some(value)))
                &&& s2.store == s1.store
            }
        }),
{
    let s1 = step(CommandView::SetEx { key, seconds, value }, s, path, set_at, uptime).0;
    assert(s1.store.contains_key(key));
    if read_at < expiry_after(set_at, seconds) {
        assert(purge(s1.store, key, read_at) == s1.store);
    }
}

/// Time only runs one way for a key: once it reads as absent (time to
/// live -2) at some time it stays so at every later time, and while it
/// lives its time to live never grows.
pub proof fn law_ttl_never_grows(m: Map<Seq<char>, EntryView>, k: Seq<char>, earlier: i64, later: i64)
    requires
        earlier <= later,
    ensures
        ttl_of(m, k, earlier) == -2 ==> ttl_of(m, k, later) == -2,
        live_at(m, k, later) ==> live_at(m, k, earlier),
        live_at(m, k, later) && m[k].expires_at is Some ==> 0 <= ttl_of(m, k, later) <= ttl_of(
            m,
            k,
            earlier,
        ),
{
    law_exists_iff_readable(m, k, earlier);
    law_exists_iff_readable(m, k, later);
    if live_at(m, k, later) && m[k].expires_at is Some {
        let t = m[k].expires_at->0;
        assert(0 <= (t - later) / 1000 <= (t - earlier) / 1000) by (nonlinear_arith)
            requires
                earlier <= later < t,
        ;
    }
}

/// A cleanup pass at `now` keeps exactly the keys that have not expired
/// and drops exactly the expired ones: the number it reports is the number
/// of keys whose expiration time is at or before `now`.
pub proof fn law_cleanup_counts_expired(m: Map<Seq<char>, EntryView>, now: i64)
    requires
        m.dom().finite(),
    ensures
        live(m, now).dom() == m.dom().filter(|k: Seq<char>| !is_expired(m[k], now)),
        live(m, now).dom().finite(),
        m.dom().len() - live(m, now).dom().len() == m.dom().filter(
            |k: Seq<char>| is_expired(m[k], now),
        ).len(),
{
    let kept = m.dom().filter(|k: Seq<char>| !is_expired(m[k], now));
    let gone = m.dom().filter(|k: Seq<char>| is_expired(m[k], now));
    assert(live(m, now).dom() =~= kept);
    m.dom().lemma_len_filter(|k: Seq<char>| !is_expired(m[k], now));
    m.dom().lemma_len_filter(|k: Seq<char>| is_expired(m[k], now));
    vstd::set_lib::lemma_set_disjoint_lens(kept, gone);
    assert(kept.disjoint(gone));
    assert(kept + gone =~= m.dom());
}

/// A snapshot taken at `now` holds every key whose entry has not expired at
/// `now`, with that entry, and no key whose entry has.
pub proof fn law_snapshot_keeps_unexpired(s: Seq<(String, Entry)>, now: i64, i: int)
    requires
        distinct_keys(s),
        0 <= i < s.len(),
    ensures
        !is_expired(s[i].1@, now) ==> {
            &&& entries_map(live_pairs(s, now)).contains_key(s[i].0@)
            &&& entries_map(live_pairs(s, now))[s[i].0@] == s[i].1@
        },
        is_expired(s[i].1@, now) ==> !entries_map(live_pairs(s, now)).contains_key(s[i].0@),
{
    lemma_live_pairs(s, now);
    lemma_index(s, i);
}

} // verus!
