use irondb::command::{parse_command, Command};
use irondb::error::IronDbError;
use irondb::protocol::{format_response, Response};

#[test]
fn parses_ping() {
    assert_eq!(parse_command("PING").unwrap(), Command::Ping);
}

#[test]
fn parses_set_with_spaces_in_value() {
    assert_eq!(
        parse_command("SET name Junan Kim").unwrap(),
        Command::SetValue {
            key: "name".into(),
            value: "Junan Kim".into(),
        }
    );
}

#[test]
fn rejects_set_without_value() {
    assert!(parse_command("SET onlykey").is_err());
}

#[test]
fn rejects_get_without_key() {
    assert!(parse_command("GET").is_err());
}

#[test]
fn rejects_unknown_command() {
    assert!(parse_command("UNKNOWN key").is_err());
}

#[test]
fn rejects_expire_with_non_numeric_seconds() {
    assert!(parse_command("EXPIRE key abc").is_err());
}

#[test]
fn parses_mvp_commands() {
    assert_eq!(parse_command("PING").unwrap(), Command::Ping);
    assert_eq!(
        parse_command("SET name Junan").unwrap(),
        Command::SetValue {
            key: "name".into(),
            value: "Junan".into(),
        }
    );
    assert_eq!(
        parse_command("GET name").unwrap(),
        Command::Get { key: "name".into() }
    );
    assert_eq!(
        parse_command("DEL name").unwrap(),
        Command::Del { key: "name".into() }
    );
    assert_eq!(
        parse_command("EXISTS name").unwrap(),
        Command::Exists { key: "name".into() }
    );
}

#[test]
fn parses_ttl_commands() {
    assert_eq!(
        parse_command("EXPIRE session 60").unwrap(),
        Command::Expire {
            key: "session".into(),
            seconds: 60,
        }
    );
    assert_eq!(
        parse_command("TTL session").unwrap(),
        Command::Ttl {
            key: "session".into()
        }
    );
    assert_eq!(
        parse_command("SETEX session 60 abc123").unwrap(),
        Command::SetEx {
            key: "session".into(),
            seconds: 60,
            value: "abc123".into(),
        }
    );
}

#[test]
fn parses_admin_commands() {
    assert_eq!(parse_command("SAVE").unwrap(), Command::Save);
    assert_eq!(parse_command("LOAD").unwrap(), Command::Load);
    assert_eq!(parse_command("INFO").unwrap(), Command::Info);
}

#[test]
fn rejects_malformed_commands() {
    assert!(parse_command("SET onlykey").is_err());
    assert!(parse_command("GET").is_err());
    assert!(parse_command("EXPIRE key abc").is_err());
    assert!(parse_command("UNKNOWN key").is_err());
}

#[test]
fn set_value_can_contain_spaces() {
    assert_eq!(
        parse_command("SET msg hello world").unwrap(),
        Command::SetValue {
            key: "msg".into(),
            value: "hello world".into(),
        }
    );
}

#[test]
fn formats_responses() {
    assert_eq!(format_response(&Response::Simple("PONG".into())), "PONG\n");
    assert_eq!(format_response(&Response::Bulk(None)), "(nil)\n");
    assert_eq!(
        format_response(&Response::Bulk(Some("Junan".into()))),
        "Junan\n"
    );
    assert_eq!(format_response(&Response::Integer(1)), "1\n");
    assert_eq!(
        format_response(&Response::Error("bad command".into())),
        "ERR bad command\n"
    );
}

fn parse_message(line: &str) -> String {
    match parse_command(line) {
        Err(IronDbError::Parse(m)) => m,
        other => panic!("expected a parse error, got {other:?}"),
    }
}

#[test]
fn command_word_is_case_insensitive_and_whitespace_is_collapsed() {
    assert_eq!(parse_command("ping").unwrap(), Command::Ping);
    assert_eq!(
        parse_command("  sEt   k\t v1    v2  ").unwrap(),
        Command::SetValue {
            key: "k".into(),
            value: "v1 v2".into(),
        }
    );
    assert_eq!(
        parse_command("setex s +7 a  b").unwrap(),
        Command::SetEx {
            key: "s".into(),
            seconds: 7,
            value: "a b".into(),
        }
    );
}

#[test]
fn parse_error_messages() {
    assert_eq!(parse_message(""), "empty command");
    assert_eq!(parse_message(" \t "), "empty command");
    assert_eq!(parse_message("PING x"), "PING takes no arguments");
    assert_eq!(parse_message("SET k"), "SET requires key and value");
    assert_eq!(parse_message("GET"), "GET requires a key");
    assert_eq!(parse_message("GET a b"), "GET takes exactly one argument");
    assert_eq!(parse_message("DEL"), "DEL requires a key");
    assert_eq!(parse_message("DEL a b"), "DEL takes exactly one argument");
    assert_eq!(parse_message("EXISTS"), "EXISTS requires a key");
    assert_eq!(parse_message("EXISTS a b"), "EXISTS takes exactly one argument");
    assert_eq!(parse_message("EXPIRE k"), "EXPIRE requires key and seconds");
    assert_eq!(parse_message("EXPIRE k 1 2"), "EXPIRE takes exactly two arguments");
    assert_eq!(parse_message("EXPIRE k -1"), "EXPIRE seconds must be a number");
    assert_eq!(parse_message("TTL"), "TTL requires a key");
    assert_eq!(parse_message("TTL a b"), "TTL takes exactly one argument");
    assert_eq!(parse_message("SETEX k 1"), "SETEX requires key, seconds, and value");
    assert_eq!(parse_message("SETEX k x v"), "SETEX seconds must be a number");
    assert_eq!(parse_message("SAVE now"), "SAVE takes no arguments");
    assert_eq!(parse_message("LOAD now"), "LOAD takes no arguments");
    assert_eq!(parse_message("INFO all"), "INFO takes no arguments");
    assert_eq!(parse_message("flush all"), "unknown command: FLUSH");
}

#[test]
fn seconds_follow_unsigned_number_syntax() {
    assert_eq!(
        parse_command("EXPIRE k 18446744073709551615").unwrap(),
        Command::Expire {
            key: "k".into(),
            seconds: u64::MAX,
        }
    );
    assert_eq!(
        parse_message("EXPIRE k 18446744073709551616"),
        "EXPIRE seconds must be a number"
    );
    assert_eq!(parse_message("EXPIRE k +"), "EXPIRE seconds must be a number");
    assert_eq!(
        parse_command("EXPIRE k 007").unwrap(),
        Command::Expire {
            key: "k".into(),
            seconds: 7,
        }
    );
}

#[test]
fn unicode_whitespace_separates_words() {
    assert_eq!(
        parse_command("GET\u{3000}name\u{a0}").unwrap(),
        Command::Get { key: "name".into() }
    );
}
