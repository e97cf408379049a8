//! The library's error type.
use vstd::prelude::*;

verus! {

/// Errors of the database: a malformed command line, a failed read or
/// write of a snapshot file, or a snapshot that could not be encoded or
/// decoded. Each carries its message text.
#[derive(Debug)]
pub enum IronDbError {
    Parse(String),
    Io(String),
    Persistence(String),
}

pub type Result<T> = std::result::Result<T, IronDbError>;

impl IronDbError {
    /// The text that describes the error to a user.
    pub open spec fn text(&self) -> Seq<char> {
        match self {
            IronDbError::Parse(m) => "parse error: "@ + m@,
            IronDbError::Io(m) => "io error: "@ + m@,
            IronDbError::Persistence(m) => "persistence error: "@ + m@,
        }
    }

    /// The text that describes the error to a user.
    pub fn message(&self) -> (r: String)
        ensures
            r@ == self.text(),
    {
        match self {
            IronDbError::Parse(m) => String::from_str("parse error: ").concat(m.as_str()),
            IronDbError::Io(m) => String::from_str("io error: ").concat(m.as_str()),
            IronDbError::Persistence(m) => String::from_str("persistence error: ").concat(
                m.as_str(),
            ),
        }
    }
}

} // verus!
