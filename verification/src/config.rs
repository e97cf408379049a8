//! Server settings.
use vstd::prelude::*;

verus! {

/// The server's settings: the TCP port to listen on, and the snapshot file
/// used by `SAVE` and `LOAD`, if any.
#[derive(Debug, Clone, PartialEq, Eq)]
pub struct Config {
    pub port: u16,
    pub snapshot: Option<String>,
}

} // verus!
