//! The line-based command language: what a client may send, and how a
//! line of text is read as one command.
use vstd::prelude::*;

use crate::error::{IronDbError, Result};
use crate::text::{
    chars_of, join_with, join_words, parse_u64, parse_u64_spec, split_words, string_of, upper,
    upper_string, views, words,
};

verus! {

/// A command that a client sends.
#[derive(Debug, Clone, PartialEq, Eq)]
pub enum Command {
    Ping,
    SetValue { key: String, value: String },
    Get { key: String },
    Del { key: String },
    Exists { key: String },
    Expire { key: String, seconds: u64 },
    Ttl { key: String },
    SetEx { key: String, seconds: u64, value: String },
    Save,
    Load,
    Info,
}

/// A command with its strings seen as character sequences.
pub enum CommandView {
    Ping,
    SetValue { key: Seq<char>, value: Seq<char> },
    Get { key: Seq<char> },
    Del { key: Seq<char> },
    Exists { key: Seq<char> },
    Expire { key: Seq<char>, seconds: u64 },
    Ttl { key: Seq<char> },
    SetEx { key: Seq<char>, seconds: u64, value: Seq<char> },
    Save,
    Load,
    Info,
}

impl View for Command {
    type V = CommandView;

    open spec fn view(&self) -> CommandView {
        match self {
            Command::Ping => CommandView::Ping,
            Command::SetValue { key, value } => CommandView::SetValue { key: key@, value: value@ },
            Command::Get { key } => CommandView::Get { key: key@ },
            Command::Del { key } => CommandView::Del { key: key@ },
            Command::Exists { key } => CommandView::Exists { key: key@ },
            Command::Expire { key, seconds } => CommandView::Expire { key: key@, seconds: *seconds },
            Command::Ttl { key } => CommandView::Ttl { key: key@ },
            Command::SetEx { key, seconds, value } => CommandView::SetEx {
                key: key@,
                seconds: *seconds,
                value: value@,
            },
            Command::Save => CommandView::Save,
            Command::Load => CommandView::Load,
            Command::Info => CommandView::Info,
        }
    }
}

/// The value part of `SET` and `SETEX`: the remaining words, joined by
/// single spaces.
pub open spec fn value_of(ws: Seq<Seq<char>>, from: int) -> Seq<char> {
    join_with(ws.skip(from), seq![' '])
}

/// What a command line means: the command it names, or the message of the
/// parse error. The line is read as its whitespace-separated words; the
/// first names the command, in any ASCII letter case.
pub open spec fn parse_spec(line: Seq<char>) -> std::result::Result<CommandView, Seq<char>> {
    let w = words(line);
    let n = w.len();
    if n == 0 {
        Err("empty command"@)
    } else {
        let name = upper(w[0]);
        if name == "PING"@ {
            if n == 1 {
                Ok(CommandView::Ping)
            } else {
                Err("PING takes no arguments"@)
            }
        } else if name == "SET"@ {
            if n < 3 {
                Err("SET requires key and value"@)
            } else {
                Ok(CommandView::SetValue { key: w[1], value: value_of(w, 2) })
            }
        } else if name == "GET"@ {
            if n < 2 {
                Err("GET requires a key"@)
            } else if n > 2 {
                Err("GET takes exactly one argument"@)
            } else {
                Ok(CommandView::Get { key: w[1] })
            }
        } else if name == "DEL"@ {
            if n < 2 {
                Err("DEL requires a key"@)
            } else if n > 2 {
                Err("DEL takes exactly one argument"@)
            } else {
                Ok(CommandView::Del { key: w[1] })
            }
        } else if name == "EXISTS"@ {
            if n < 2 {
                Err("EXISTS requires a key"@)
            } else if n > 2 {
                Err("EXISTS takes exactly one argument"@)
            } else {
                Ok(CommandView::Exists { key: w[1] })
            }
        } else if name == "EXPIRE"@ {
            if n < 3 {
                Err("EXPIRE requires key and seconds"@)
            } else if n > 3 {
                Err("EXPIRE takes exactly two arguments"@)
            } else {
                match parse_u64_spec(w[2]) {
                    Some(s) => Ok(CommandView::Expire { key: w[1], seconds: s }),
                    None => Err("EXPIRE seconds must be a number"@),
                }
            }
        } else if name == "TTL"@ {
            if n < 2 {
                Err("TTL requires a key"@)
            } else if n > 2 {
                Err("TTL takes exactly one argument"@)
            } else {
                Ok(CommandView::Ttl { key: w[1] })
            }
        } else if name == "SETEX"@ {
            if n < 4 {
                Err("SETEX requires key, seconds, and value"@)
            } else {
                match parse_u64_spec(w[2]) {
                    Some(s) => Ok(CommandView::SetEx { key: w[1], seconds: s, value: value_of(w, 3) }),
                    None => Err("SETEX seconds must be a number"@),
                }
            }
        } else if name == "SAVE"@ {
            if n == 1 {
                Ok(CommandView::Save)
            } else {
                Err("SAVE takes no arguments"@)
            }
        } else if name == "LOAD"@ {
            if n == 1 {
                Ok(CommandView::Load)
            } else {
                Err("LOAD takes no arguments"@)
            }
        } else if name == "INFO"@ {
            if n == 1 {
                Ok(CommandView::Info)
            } else {
                Err("INFO takes no arguments"@)
            }
        } else {
            Err("unknown command: "@ + name)
        }
    }
}

/// A parse error with the given message.
fn parse_error(msg: &str) -> (r: IronDbError)
    ensures
        r matches IronDbError::Parse(m) && m@ == msg@,
{
    IronDbError::Parse(String::from_str(msg))
}

/// Whether the string holds exactly the characters of `lit`.
fn is(name: &String, lit: &str) -> (r: bool)
    ensures
        r == (name@ == lit@),
{
    *name == String::from_str(lit)
}

/// Reads one command line.
///
/// Succeeds exactly on the lines that `parse_spec` maps to a command and
/// returns that command; on every other line it returns the parse error
/// with the message that `parse_spec` gives.
pub fn parse_command(line: &str) -> (r: Result<Command>)
    ensures
        match r {
            Ok(c) => parse_spec(line@) == Ok::<CommandView, Seq<char>>(c@),
            Err(IronDbError::Parse(m)) => parse_spec(line@) == Err::<CommandView, Seq<char>>(m@),
            Err(_) => false,
        },
{
    let chars = chars_of(line);
    let w = split_words(&chars);
    let ghost ws = views(w@);
    assert(ws == words(line@));
    let n = w.len();
    if n == 0 {
        return Err(parse_error("empty command"));
    }
    assert(ws[0] == w@[0]@);
    let name = upper_string(&w[0]);
    if is(&name, "PING") {
        if n == 1 {
            Ok(Command::Ping)
        } else {
            Err(parse_error("PING takes no arguments"))
        }
    } else if is(&name, "SET") {
        if n < 3 {
            Err(parse_error("SET requires key and value"))
        } else {
            let key = string_of(&w[1]);
            let value = join_words(&w, 2, ' ');
            Ok(Command::SetValue { key, value })
        }
    } else if is(&name, "GET") {
        if n < 2 {
            Err(parse_error("GET requires a key"))
        } else if n > 2 {
            Err(parse_error("GET takes exactly one argument"))
        } else {
            Ok(Command::Get { key: string_of(&w[1]) })
        }
    } else if is(&name, "DEL") {
        if n < 2 {
            Err(parse_error("DEL requires a key"))
        } else if n > 2 {
            Err(parse_error("DEL takes exactly one argument"))
        } else {
            Ok(Command::Del { key: string_of(&w[1]) })
        }
    } else if is(&name, "EXISTS") {
        if n < 2 {
            Err(parse_error("EXISTS requires a key"))
        } else if n > 2 {
            Err(parse_error("EXISTS takes exactly one argument"))
        } else {
            Ok(Command::Exists { key: string_of(&w[1]) })
        }
    } else if is(&name, "EXPIRE") {
        if n < 3 {
            Err(parse_error("EXPIRE requires key and seconds"))
        } else if n > 3 {
            Err(parse_error("EXPIRE takes exactly two arguments"))
        } else {
            match parse_u64(&w[2]) {
                Some(seconds) => Ok(Command::Expire { key: string_of(&w[1]), seconds }),
                None => Err(parse_error("EXPIRE seconds must be a number")),
            }
        }
    } else if is(&name, "TTL") {
        if n < 2 {
            Err(parse_error("TTL requires a key"))
        } else if n > 2 {
            Err(parse_error("TTL takes exactly one argument"))
        } else {
            Ok(Command::Ttl { key: string_of(&w[1]) })
        }
    } else if is(&name, "SETEX") {
        if n < 4 {
            Err(parse_error("SETEX requires key, seconds, and value"))
        } else {
            let value = join_words(&w, 3, ' ');
            match parse_u64(&w[2]) {
                Some(seconds) => Ok(Command::SetEx { key: string_of(&w[1]), seconds, value }),
                None => Err(parse_error("SETEX seconds must be a number")),
            }
        }
    } else if is(&name, "SAVE") {
        if n == 1 {
            Ok(Command::Save)
        } else {
            Err(parse_error("SAVE takes no arguments"))
        }
    } else if is(&name, "LOAD") {
        if n == 1 {
            Ok(Command::Load)
        } else {
            Err(parse_error("LOAD takes no arguments"))
        }
    } else if is(&name, "INFO") {
        if n == 1 {
            Ok(Command::Info)
        } else {
            Err(parse_error("INFO takes no arguments"))
        }
    } else {
        let msg = String::from_str("unknown command: ").concat(name.as_str());
        Err(IronDbError::Parse(msg))
    }
}

} // verus!
