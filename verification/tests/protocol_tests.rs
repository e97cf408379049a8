use irondb::command::Command;
use irondb::error::IronDbError;
use irondb::protocol::{
    execute_at, execute_command, finish_load, finish_save, format_response, parse_and_dispatch,
    Action, Response,
};
use irondb::stats::ServerStats;
use irondb::store::{Entry, Store};

const T0: i64 = 1_700_000_000_000;

fn reply(action: Option<Action>) -> Response {
    match action {
        Some(Action::Reply(r)) => r,
        other => panic!("expected a reply, got {other:?}"),
    }
}

#[test]
fn formats_simple_response() {
    assert_eq!(format_response(&Response::Simple("OK".into())), "OK\n");
}

#[test]
fn formats_nil_bulk() {
    assert_eq!(format_response(&Response::Bulk(None)), "(nil)\n");
}

#[test]
fn formats_error() {
    assert_eq!(format_response(&Response::Error("bad".into())), "ERR bad\n");
}

#[test]
fn ping_returns_pong() {
    let mut store = Store::new();
    let mut stats = ServerStats::new(None);
    let response = reply(execute_command(Command::Ping, &mut store, &mut stats, None));
    assert_eq!(response, Response::Simple("PONG".into()));
}

#[test]
fn formats_integers_and_info() {
    assert_eq!(format_response(&Response::Integer(-2)), "-2\n");
    assert_eq!(format_response(&Response::Integer(0)), "0\n");
    assert_eq!(
        format_response(&Response::Integer(i64::MIN)),
        "-9223372036854775808\n"
    );
    assert_eq!(
        format_response(&Response::Integer(i64::MAX)),
        "9223372036854775807\n"
    );
    let info = Response::Info(vec![
        ("a".into(), "1".into()),
        ("b".into(), "two".into()),
    ]);
    assert_eq!(format_response(&info), "a:1\nb:two\n");
    assert_eq!(format_response(&Response::Info(vec![])), "\n");
}

#[test]
fn commands_over_the_dispatcher() {
    let mut store = Store::new();
    let mut stats = ServerStats::new(None);
    let mut run = |line: &str| reply(parse_and_dispatch(line, &mut store, &mut stats, None));
    assert_eq!(run("PING"), Response::Simple("PONG".into()));
    assert_eq!(run("SET name Junan"), Response::Simple("OK".into()));
    assert_eq!(run("GET name"), Response::Bulk(Some("Junan".into())));
    assert_eq!(run("EXISTS name"), Response::Integer(1));
    assert_eq!(run("TTL name"), Response::Integer(-1));
    assert_eq!(run("DEL name"), Response::Integer(1));
    assert_eq!(run("DEL name"), Response::Integer(0));
    assert_eq!(run("GET name"), Response::Bulk(None));
    assert_eq!(run("EXPIRE name 10"), Response::Integer(0));
    assert_eq!(run("SETEX s 100 v w"), Response::Simple("OK".into()));
    assert_eq!(run("GET s"), Response::Bulk(Some("v w".into())));
    assert_eq!(run("EXPIRE s 50"), Response::Simple("OK".into()));
    assert_eq!(run("BOGUS"), Response::Error("unknown command: BOGUS".into()));
    assert_eq!(
        run("SAVE"),
        Response::Error("snapshot path not configured".into())
    );
    assert_eq!(
        run("LOAD"),
        Response::Error("snapshot path not configured".into())
    );
}

#[test]
fn lazy_expirations_reach_the_statistics() {
    let mut store = Store::new();
    let mut stats = ServerStats::new(None);
    store.setex_at("a", 1, "x", T0);
    store.setex_at("b", 1, "y", T0);
    let later = T0 + 5_000;
    let get = Command::Get { key: "a".into() };
    assert_eq!(
        reply(Some(execute_at(get, &mut store, &mut stats, None, later, 0))),
        Response::Bulk(None)
    );
    let ttl = Command::Ttl { key: "b".into() };
    assert_eq!(
        reply(Some(execute_at(ttl, &mut store, &mut stats, None, later, 0))),
        Response::Integer(-2)
    );
    let info = reply(Some(execute_at(Command::Info, &mut store, &mut stats, None, later, 7)));
    match info {
        Response::Info(fields) => {
            assert_eq!(fields[1], ("uptime_seconds".to_string(), "7".to_string()));
            assert_eq!(fields[4], ("keys".to_string(), "0".to_string()));
            assert_eq!(fields[5], ("expired_keys".to_string(), "2".to_string()));
        }
        other => panic!("expected INFO fields, got {other:?}"),
    }
}

#[test]
fn snapshot_commands_ask_for_file_work() {
    let mut store = Store::new();
    let mut stats = ServerStats::new(Some("snap.json".into()));
    match execute_at(Command::Save, &mut store, &mut stats, Some("snap.json"), T0, 0) {
        Action::SaveSnapshot(p) => assert_eq!(p, "snap.json"),
        other => panic!("expected a save, got {other:?}"),
    }
    match execute_at(Command::Load, &mut store, &mut stats, Some("snap.json"), T0, 0) {
        Action::LoadSnapshot(p) => assert_eq!(p, "snap.json"),
        other => panic!("expected a load, got {other:?}"),
    }
}

#[test]
fn finishing_snapshot_work() {
    assert_eq!(finish_save(Ok(())), Response::Simple("OK".into()));
    assert_eq!(
        finish_save(Err(IronDbError::Io("disk full".into()))),
        Response::Error("io error: disk full".into())
    );
    let mut store = Store::new();
    store.set("x", "1");
    let failed = finish_load(
        &mut store,
        Err(IronDbError::Persistence("bad json".into())),
    );
    assert_eq!(failed, Response::Error("persistence error: bad json".into()));
    assert_eq!(store.get_at("x", T0), Some("1".to_string()));
    let loaded = finish_load(
        &mut store,
        Ok(vec![("y".to_string(), Entry { value: "2".into(), expires_at: None })]),
    );
    assert_eq!(loaded, Response::Simple("OK".into()));
    assert_eq!(store.get_at("x", T0), None);
    assert_eq!(store.get_at("y", T0), Some("2".to_string()));
}

#[test]
fn expirations_that_cannot_be_formed_abandon_the_command() {
    let mut store = Store::new();
    let mut stats = ServerStats::new(None);
    store.set("k", "v");
    store.setex_at("old", 1, "v", 0);
    assert!(parse_and_dispatch("EXPIRE k 9223372036854776", &mut store, &mut stats, None).is_none());
    assert!(parse_and_dispatch("SETEX k 9223372036854776 w", &mut store, &mut stats, None).is_none());
    assert_eq!(store.get("k"), Some("v".to_string()));
    // An expired key answers 0, whatever the seconds.
    assert_eq!(
        reply(parse_and_dispatch("EXPIRE old 9223372036854776", &mut store, &mut stats, None)),
        Response::Integer(0)
    );
    // A count that wraps to a negative span is formed.
    assert_eq!(
        reply(parse_and_dispatch("EXPIRE k 18446744073709551615", &mut store, &mut stats, None)),
        Response::Simple("OK".into())
    );
    assert_eq!(store.get("k"), None);
}
