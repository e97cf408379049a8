//! Executing commands against the store and rendering the replies.
//!
//! Running a command either yields a reply at once or asks the caller to
//! write or read the snapshot file (`Action`); the caller then turns the
//! outcome of that file operation into the reply with `finish_save` or
//! `finish_load`.
use vstd::prelude::*;

use vstd::wrapping::u64_specs::wrapping_add;

use crate::clock::now_millis;
use crate::command::{parse_command, parse_spec, Command, CommandView};
use crate::error::IronDbError;
use crate::stats::{info_spec, opt_view, pairs_view, ServerStats, StatsView};
use crate::store::{
    can_expire, clock_reading, count_after, entries_map, expiry_after, expiry_formable, live, live_at, lookup,
    purge, ttl_of, Entry, EntryView, Store,
};
use crate::text::{join_with, push_char, push_signed_decimal, signed_decimal};

verus! {

/// A reply to a client.
#[derive(Debug, Clone, PartialEq, Eq)]
pub enum Response {
    Simple(String),
    Bulk(Option<String>),
    Integer(i64),
    Error(String),
    Info(Vec<(String, String)>),
}

/// A reply with its strings seen as character sequences.
pub enum ResponseView {
    Simple(Seq<char>),
    Bulk(Option<Seq<char>>),
    Integer(i64),
    Error(Seq<char>),
    Info(Seq<(Seq<char>, Seq<char>)>),
}

impl View for Response {
    type V = ResponseView;

    open spec fn view(&self) -> ResponseView {
        match self {
            Response::Simple(s) => ResponseView::Simple(s@),
            Response::Bulk(o) => ResponseView::Bulk(opt_view(*o)),
            Response::Integer(n) => ResponseView::Integer(*n),
            Response::Error(m) => ResponseView::Error(m@),
            Response::Info(fields) => ResponseView::Info(pairs_view(fields@)),
        }
    }
}

/// The `key:value` lines of an `INFO` reply.
pub open spec fn info_lines(fields: Seq<(Seq<char>, Seq<char>)>) -> Seq<Seq<char>> {
    fields.map_values(|p: (Seq<char>, Seq<char>)| p.0 + seq![':'] + p.1)
}

/// The text sent to the client for a reply.
pub open spec fn wire(r: ResponseView) -> Seq<char> {
    match r {
        ResponseView::Simple(s) => s.push('\n'),
        ResponseView::Bulk(Some(s)) => s.push('\n'),
        ResponseView::Bulk(None) => "(nil)"@.push('\n'),
        ResponseView::Integer(n) => signed_decimal(n as int).push('\n'),
        ResponseView::Error(m) => ("ERR "@ + m).push('\n'),
        ResponseView::Info(fields) => join_with(info_lines(fields), seq!['\n']).push('\n'),
    }
}

/// Renders a reply as the text sent to the client.
pub fn format_response(response: &Response) -> (r: String)
    ensures
        r@ == wire(response@),
{
    match response {
        Response::Simple(s) => {
            let mut out = s.clone();
            push_char(&mut out, '\n');
            out
        },
        Response::Bulk(Some(s)) => {
            let mut out = s.clone();
            push_char(&mut out, '\n');
            out
        },
        Response::Bulk(None) => {
            let mut out = String::from_str("(nil)");
            push_char(&mut out, '\n');
            out
        },
        Response::Integer(n) => {
            let mut out = String::new();
            push_signed_decimal(&mut out, *n);
            push_char(&mut out, '\n');
            assert(Seq::<char>::empty() + signed_decimal(*n as int) =~= signed_decimal(*n as int));
            out
        },
        Response::Error(m) => {
            let mut out = String::from_str("ERR ");
            out.append(m.as_str());
            push_char(&mut out, '\n');
            out
        },
        Response::Info(fields) => {
            let ghost lines = info_lines(pairs_view(fields@));
            let mut out = String::new();
            let mut i: usize = 0;
            assert(lines.take(0) =~= Seq::<Seq<char>>::empty());
            while i < fields.len()
                invariant
                    i <= fields@.len(),
                    lines == info_lines(pairs_view(fields@)),
                    out@ == join_with(lines.take(i as int), seq!['\n']),
                decreases fields.len() - i,
            {
                let ghost before = out@;
                if i > 0 {
                    push_char(&mut out, '\n');
                }
                out.append(fields[i].0.as_str());
                push_char(&mut out, ':');
                out.append(fields[i].1.as_str());
                let ghost next = lines.take(i + 1);
                assert(next.drop_last() =~= lines.take(i as int));
                assert(next.last() == lines[i as int]);
                assert(lines[i as int] == fields@[i as int].0@ + seq![':'] + fields@[i as int].1@);
                if i == 0 {
                    assert(next.len() == 1);
                    assert(before =~= Seq::<char>::empty());
                    assert(out@ =~= next[0]);
                } else {
                    assert(out@ =~= before + seq!['\n'] + lines[i as int]);
                }
                i += 1;
            }
            assert(lines.take(fields@.len() as int) =~= lines);
            push_char(&mut out, '\n');
            out
        },
    }
}

/// What running a command asks for: a reply, or a snapshot written to or
/// read from the given path.
#[derive(Debug)]
pub enum Action {
    Reply(Response),
    SaveSnapshot(String),
    LoadSnapshot(String),
}

pub enum ActionView {
    Reply(ResponseView),
    SaveSnapshot(Seq<char>),
    LoadSnapshot(Seq<char>),
}

impl View for Action {
    type V = ActionView;

    open spec fn view(&self) -> ActionView {
        match self {
            Action::Reply(r) => ActionView::Reply(r@),
            Action::SaveSnapshot(p) => ActionView::SaveSnapshot(p@),
            Action::LoadSnapshot(p) => ActionView::LoadSnapshot(p@),
        }
    }
}

/// The state a command acts on: the store's map, the store's count of keys
/// dropped on access not yet recorded, and the statistics.
pub struct ServerState {
    pub store: Map<Seq<char>, EntryView>,
    pub lazy: u64,
    pub stats: StatsView,
}

/// The state after a command that accessed `key` at `now` left the map
/// `after`: the keys dropped on access are moved into the statistics.
pub open spec fn after_access(
    s: ServerState,
    key: Seq<char>,
    now: i64,
    after: Map<Seq<char>, EntryView>,
) -> ServerState {
    ServerState {
        store: after,
        lazy: 0,
        stats: StatsView {
            expired_keys: wrapping_add(s.stats.expired_keys, count_after(s.lazy, s.store, key, now)),
            ..s.stats
        },
    }
}

pub open spec fn reply(r: ResponseView) -> ActionView {
    ActionView::Reply(r)
}

pub open spec fn flag(b: bool) -> i64 {
    if b {
        1
    } else {
        0
    }
}

/// What running a command does at time `now` on a server up for `uptime`
/// seconds with the given snapshot path: the new state, and the action.
pub open spec fn step(
    cmd: CommandView,
    s: ServerState,
    path: Option<Seq<char>>,
    now: i64,
    uptime: u64,
) -> (ServerState, ActionView) {
    match cmd {
        CommandView::Ping => (s, reply(ResponseView::Simple("PONG"@))),
        CommandView::SetValue { key, value } => (
            ServerState {
                store: s.store.insert(key, EntryView { value, expires_at: None }),
                ..s
            },
            reply(ResponseView::Simple("OK"@)),
        ),
        CommandView::Get { key } => (
            after_access(s, key, now, purge(s.store, key, now)),
            reply(ResponseView::Bulk(lookup(s.store, key, now))),
        ),
        CommandView::Del { key } => (
            after_access(s, key, now, s.store.remove(key)),
            reply(ResponseView::Integer(flag(live_at(s.store, key, now)))),
        ),
        CommandView::Exists { key } => (
            after_access(s, key, now, purge(s.store, key, now)),
            reply(ResponseView::Integer(flag(live_at(s.store, key, now)))),
        ),
        CommandView::Expire { key, seconds } => if live_at(s.store, key, now) {
            (
                after_access(
                    s,
                    key,
                    now,
                    s.store.insert(
                        key,
                        EntryView {
                            value: s.store[key].value,
                            expires_at: Some(expiry_after(now, seconds)),
                        },
                    ),
                ),
                reply(ResponseView::Simple("OK"@)),
            )
        } else {
            (after_access(s, key, now, s.store.remove(key)), reply(ResponseView::Integer(0)))
        },
        CommandView::Ttl { key } => (
            after_access(s, key, now, purge(s.store, key, now)),
            reply(ResponseView::Integer(ttl_of(s.store, key, now))),
        ),
        CommandView::SetEx { key, seconds, value } => (
            ServerState {
                store: s.store.insert(
                    key,
                    EntryView { value, expires_at: Some(expiry_after(now, seconds)) },
                ),
                ..s
            },
            reply(ResponseView::Simple("OK"@)),
        ),
        CommandView::Save => match path {
            Some(p) => (s, ActionView::SaveSnapshot(p)),
            None => (s, reply(ResponseView::Error("snapshot path not configured"@))),
        },
        CommandView::Load => match path {
            Some(p) => (s, ActionView::LoadSnapshot(p)),
            None => (s, reply(ResponseView::Error("snapshot path not configured"@))),
        },
        CommandView::Info => (
            s,
            reply(
                ResponseView::Info(info_spec(s.stats, live(s.store, now).dom().len(), uptime as nat)),
            ),
        ),
    }
}

/// Whether running the command at `now` stays within the dates and
/// times that can be formed: an expiration is only computed for a live
/// key, and `SETEX` always computes one.
pub open spec fn admissible_at(cmd: CommandView, m: Map<Seq<char>, EntryView>, now: i64) -> bool {
    match cmd {
        CommandView::Expire { key, seconds } => live_at(m, key, now) ==> can_expire(now, seconds),
        CommandView::SetEx { seconds, .. } => can_expire(now, seconds),
        _ => true,
    }
}

/// What running a command at `now` does: its step where it is admissible;
/// otherwise nothing changes and there is no action (the command is
/// abandoned).
pub open spec fn run_spec(
    cmd: CommandView,
    s: ServerState,
    path: Option<Seq<char>>,
    now: i64,
    uptime: u64,
) -> (ServerState, Option<ActionView>) {
    if admissible_at(cmd, s.store, now) {
        (step(cmd, s, path, now, uptime).0, Some(step(cmd, s, path, now, uptime).1))
    } else {
        (s, None)
    }
}

/// What handling a command line at `now` does: running the command it
/// names, or the parse error as an error reply.
pub open spec fn dispatch(
    line: Seq<char>,
    s: ServerState,
    path: Option<Seq<char>>,
    now: i64,
    uptime: u64,
) -> (ServerState, Option<ActionView>) {
    match parse_spec(line) {
        Ok(cmd) => run_spec(cmd, s, path, now, uptime),
        Err(m) => (s, Some(reply(ResponseView::Error(m)))),
    }
}

/// The view of an optional action.
pub open spec fn action_view(r: Option<Action>) -> Option<ActionView> {
    match r {
        Some(a) => Some(a@),
        None => None,
    }
}

/// The state of a store and statistics.
pub open spec fn state_of(store: &Store, stats: &ServerStats) -> ServerState {
    ServerState { store: store@, lazy: store.lazy_count(), stats: stats@ }
}

pub open spec fn path_view(p: Option<&str>) -> Option<Seq<char>> {
    match p {
        Some(s) => Some(s@),
        None => None,
    }
}

/// Whether the command may be run on this store at `now` (see
/// `admissible_at`).
fn admissible_now(store: &Store, command: &Command, now: i64) -> (r: bool)
    ensures
        r == admissible_at(command@, store@, now),
{
    match command {
        Command::Expire { key, seconds } => !store.has_live_key_at(key.as_str(), now)
            || expiry_formable(now, *seconds),
        Command::SetEx { seconds, .. } => expiry_formable(now, *seconds),
        _ => true,
    }
}

fn ok() -> (r: Response)
    ensures
        r@ == ResponseView::Simple("OK"@),
{
    Response::Simple(String::from_str("OK"))
}

fn unconfigured() -> (r: Response)
    ensures
        r@ == ResponseView::Error("snapshot path not configured"@),
{
    Response::Error(String::from_str("snapshot path not configured"))
}

/// Moves the keys the store dropped on access into the statistics.
fn settle(store: &mut Store, stats: &mut ServerStats)
    ensures
        final(store)@ == old(store)@,
        final(store).lazy_count() == 0,
        final(stats)@ == (StatsView {
            expired_keys: wrapping_add(old(stats)@.expired_keys, old(store).lazy_count()),
            ..old(stats)@
        }),
{
    let n = store.take_lazy_expired_count();
    stats.record_lazy_expirations(n);
}

/// Runs a command at time `now` on a server up for `uptime` seconds.
pub fn execute_at(
    command: Command,
    store: &mut Store,
    stats: &mut ServerStats,
    snapshot_path: Option<&str>,
    now: i64,
    uptime: u64,
) -> (r: Action)
    requires
        admissible_at(command@, old(store)@, now),
    ensures
        (state_of(final(store), final(stats)), r@) == step(
            command@,
            state_of(old(store), old(stats)),
            path_view(snapshot_path),
            now,
            uptime,
        ),
{
    match command {
        Command::Ping => Action::Reply(Response::Simple(String::from_str("PONG"))),
        Command::SetValue { key, value } => {
            store.set(key.as_str(), value.as_str());
            Action::Reply(ok())
        },
        Command::Get { key } => {
            let value = store.get_at(key.as_str(), now);
            settle(store, stats);
            Action::Reply(Response::Bulk(value))
        },
        Command::Del { key } => {
            let removed = store.del_at(key.as_str(), now);
            settle(store, stats);
            Action::Reply(Response::Integer(if removed { 1 } else { 0 }))
        },
        Command::Exists { key } => {
            let present = store.key_exists_at(key.as_str(), now);
            settle(store, stats);
            Action::Reply(Response::Integer(if present { 1 } else { 0 }))
        },
        Command::Expire { key, seconds } => {
            if store.expire_at(key.as_str(), seconds, now) {
                settle(store, stats);
                Action::Reply(ok())
            } else {
                settle(store, stats);
                Action::Reply(Response::Integer(0))
            }
        },
        Command::Ttl { key } => {
            let ttl = store.ttl_at(key.as_str(), now);
            settle(store, stats);
            Action::Reply(Response::Integer(ttl))
        },
        Command::SetEx { key, seconds, value } => {
            store.setex_at(key.as_str(), seconds, value.as_str(), now);
            Action::Reply(ok())
        },
        Command::Save => match snapshot_path {
            Some(path) => Action::SaveSnapshot(String::from_str(path)),
            None => Action::Reply(unconfigured()),
        },
        Command::Load => match snapshot_path {
            Some(path) => Action::LoadSnapshot(String::from_str(path)),
            None => Action::Reply(unconfigured()),
        },
        Command::Info => {
            let keys = store.len_at(now);
            Action::Reply(Response::Info(stats.info_fields_at(keys, uptime)))
        },
    }
}

/// Runs a command now. When the command would need an expiration time
/// that cannot be formed, it is abandoned: nothing changes and the result
/// is `None`.
pub fn execute_command(
    command: Command,
    store: &mut Store,
    stats: &mut ServerStats,
    snapshot_path: Option<&str>,
) -> (r: Option<Action>)
    ensures
        exists|now: i64, uptime: u64|
            clock_reading(now) && (state_of(final(store), final(stats)), action_view(r))
                == #[trigger] run_spec(
                command@,
                state_of(old(store), old(stats)),
                path_view(snapshot_path),
                now,
                uptime,
            ),
{
    let now = now_millis();
    let uptime = match command {
        Command::Info => stats.uptime_secs(),
        _ => 0,
    };
    let ghost before = state_of(store, stats);
    let ghost cmd = command@;
    if !admissible_now(store, &command, now) {
        assert(run_spec(cmd, before, path_view(snapshot_path), now, uptime) == (before, None::<ActionView>));
        return None;
    }
    let r = Some(execute_at(command, store, stats, snapshot_path, now, uptime));
    assert((state_of(store, stats), action_view(r)) == run_spec(cmd, before, path_view(snapshot_path), now, uptime));
    r
}

/// Handles one command line now: runs the command it names (see
/// `execute_command`), or replies with the parse error's message.
pub fn parse_and_dispatch(
    line: &str,
    store: &mut Store,
    stats: &mut ServerStats,
    snapshot_path: Option<&str>,
) -> (r: Option<Action>)
    ensures
        exists|now: i64, uptime: u64|
            clock_reading(now) && (state_of(final(store), final(stats)), action_view(r))
                == #[trigger] dispatch(
                line@,
                state_of(old(store), old(stats)),
                path_view(snapshot_path),
                now,
                uptime,
            ),
{
    match parse_command(line) {
        Ok(command) => {
            let ghost cmd = command@;
            let r = execute_command(command, store, stats, snapshot_path);
            proof {
                let (now, uptime) = choose|now: i64, uptime: u64|
                    clock_reading(now) && (state_of(store, stats), action_view(r))
                        == #[trigger] run_spec(
                        cmd,
                        state_of(old(store), old(stats)),
                        path_view(snapshot_path),
                        now,
                        uptime,
                    );
                assert(dispatch(line@, state_of(old(store), old(stats)), path_view(snapshot_path), now, uptime)
                    == run_spec(cmd, state_of(old(store), old(stats)), path_view(snapshot_path), now, uptime));
            }
            r
        },
        Err(IronDbError::Parse(msg)) => {
            let r = Some(Action::Reply(Response::Error(msg)));
            assert((state_of(store, stats), action_view(r)) == dispatch(
                line@,
                state_of(store, stats),
                path_view(snapshot_path),
                0,
                0,
            ));
            r
        },
        Err(err) => Some(Action::Reply(Response::Error(err.message()))),
    }
}

/// The reply to `SAVE` once the snapshot has been written, or failed to be.
pub fn finish_save(result: Result<(), IronDbError>) -> (r: Response)
    ensures
        r@ == match result {
            Ok(()) => ResponseView::Simple("OK"@),
            Err(e) => ResponseView::Error(e.text()),
        },
{
    match result {
        Ok(()) => ok(),
        Err(err) => Response::Error(err.message()),
    }
}

/// The reply to `LOAD` once the snapshot has been read: the store takes
/// the read entries, or is left as it was when the read failed.
pub fn finish_load(store: &mut Store, result: Result<Vec<(String, Entry)>, IronDbError>) -> (r:
    Response)
    ensures
        match result {
            Ok(entries) => {
                &&& final(store)@ == entries_map(entries@)
                &&& r@ == ResponseView::Simple("OK"@)
            },
            Err(e) => {
                &&& final(store)@ == old(store)@
                &&& r@ == ResponseView::Error(e.text())
            },
        },
        final(store).lazy_count() == old(store).lazy_count(),
{
    match result {
        Ok(entries) => {
            store.load_entries(entries);
            ok()
        },
        Err(err) => Response::Error(err.message()),
    }
}

} // verus!
