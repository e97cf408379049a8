//! Server statistics: uptime, clients, commands and expired keys.
use vstd::prelude::*;

use std::time::Instant;
use vstd::wrapping::u64_specs::{wrapping_add, wrapping_sub};

use crate::clock::{elapsed_since, instant_now, whole_seconds};
use crate::text::{decimal, u64_to_string};

verus! {

/// The counters of a running server. They wrap around at `u64::MAX`.
pub struct ServerStats {
    start_time: Instant,
    connected_clients: u64,
    total_commands_processed: u64,
    expired_keys: u64,
    snapshot_path: Option<String>,
}

/// What the statistics hold, apart from the start instant.
pub struct StatsView {
    pub connected_clients: u64,
    pub total_commands_processed: u64,
    pub expired_keys: u64,
    pub snapshot_path: Option<Seq<char>>,
}

/// The view of an optional string.
pub open spec fn opt_view(s: Option<String>) -> Option<Seq<char>> {
    match s {
        Some(p) => Some(p@),
        None => None,
    }
}

/// The views of a list of string pairs.
pub open spec fn pairs_view(v: Seq<(String, String)>) -> Seq<(Seq<char>, Seq<char>)> {
    v.map_values(|p: (String, String)| (p.0@, p.1@))
}

/// The fields that `INFO` reports, in order, for a server with the given
/// counters, `key_count` live keys and `uptime` seconds of uptime.
pub open spec fn info_spec(s: StatsView, key_count: nat, uptime: nat) -> Seq<(Seq<char>, Seq<char>)> {
    seq![
        ("irondb_version"@, "0.1.0"@),
        ("uptime_seconds"@, decimal(uptime)),
        ("connected_clients"@, decimal(s.connected_clients as nat)),
        ("total_commands_processed"@, decimal(s.total_commands_processed as nat)),
        ("keys"@, decimal(key_count)),
        ("expired_keys"@, decimal(s.expired_keys as nat)),
        ("snapshot_path"@, match s.snapshot_path {
            Some(p) => p,
            None => "(none)"@,
        }),
    ]
}

impl View for ServerStats {
    type V = StatsView;

    closed spec fn view(&self) -> StatsView {
        StatsView {
            connected_clients: self.connected_clients,
            total_commands_processed: self.total_commands_processed,
            expired_keys: self.expired_keys,
            snapshot_path: opt_view(self.snapshot_path),
        }
    }
}

impl ServerStats {
    /// Fresh statistics, started now, for a server with the given snapshot
    /// path.
    pub fn new(snapshot_path: Option<String>) -> (r: ServerStats)
        ensures
            r@ == (StatsView {
                connected_clients: 0,
                total_commands_processed: 0,
                expired_keys: 0,
                snapshot_path: opt_view(snapshot_path),
            }),
    {
        ServerStats {
            start_time: instant_now(),
            connected_clients: 0,
            total_commands_processed: 0,
            expired_keys: 0,
            snapshot_path,
        }
    }

    pub fn client_connected(&mut self)
        ensures
            final(self)@ == (StatsView {
                connected_clients: wrapping_add(old(self)@.connected_clients, 1),
                ..old(self)@
            }),
    {
        self.connected_clients = self.connected_clients.wrapping_add(1);
    }

    pub fn client_disconnected(&mut self)
        ensures
            final(self)@ == (StatsView {
                connected_clients: wrapping_sub(old(self)@.connected_clients, 1),
                ..old(self)@
            }),
    {
        self.connected_clients = self.connected_clients.wrapping_sub(1);
    }

    pub fn command_processed(&mut self)
        ensures
            final(self)@ == (StatsView {
                total_commands_processed: wrapping_add(old(self)@.total_commands_processed, 1),
                ..old(self)@
            }),
    {
        self.total_commands_processed = self.total_commands_processed.wrapping_add(1);
    }

    /// Counts keys that were dropped on access.
    pub fn record_lazy_expirations(&mut self, count: u64)
        ensures
            final(self)@ == (StatsView {
                expired_keys: wrapping_add(old(self)@.expired_keys, count),
                ..old(self)@
            }),
    {
        if count > 0 {
            self.expired_keys = self.expired_keys.wrapping_add(count);
        }
    }

    /// Counts keys that a cleanup pass dropped.
    pub fn record_cleanup_expirations(&mut self, count: usize)
        ensures
            final(self)@ == (StatsView {
                expired_keys: wrapping_add(old(self)@.expired_keys, count as u64),
                ..old(self)@
            }),
    {
        if count > 0 {
            self.expired_keys = self.expired_keys.wrapping_add(count as u64);
        }
    }

    /// Whole seconds since the statistics were created, by the monotonic
    /// clock.
    pub fn uptime_secs(&self) -> u64 {
        let d = elapsed_since(&self.start_time);
        whole_seconds(&d)
    }

    /// The `INFO` fields, given the number of live keys and the uptime.
    pub fn info_fields_at(&self, key_count: usize, uptime: u64) -> (r: Vec<(String, String)>)
        ensures
            pairs_view(r@) == info_spec(self@, key_count as nat, uptime as nat),
    {
        let snapshot = match &self.snapshot_path {
            Some(p) => p.clone(),
            None => String::from_str("(none)"),
        };
        let mut v: Vec<(String, String)> = Vec::new();
        v.push((String::from_str("irondb_version"), String::from_str("0.1.0")));
        v.push((String::from_str("uptime_seconds"), u64_to_string(uptime)));
        v.push((String::from_str("connected_clients"), u64_to_string(self.connected_clients)));
        v.push(
            (
                String::from_str("total_commands_processed"),
                u64_to_string(self.total_commands_processed),
            ),
        );
        v.push((String::from_str("keys"), u64_to_string(key_count as u64)));
        v.push((String::from_str("expired_keys"), u64_to_string(self.expired_keys)));
        v.push((String::from_str("snapshot_path"), snapshot));
        assert(pairs_view(v@) =~= info_spec(self@, key_count as nat, uptime as nat));
        v
    }

    /// The `INFO` fields for `key_count` live keys, with the uptime read
    /// from the clock.
    pub fn info_fields(&self, key_count: usize) -> (r: Vec<(String, String)>)
        ensures
            exists|uptime: u64|
                pairs_view(r@) == #[trigger] info_spec(self@, key_count as nat, uptime as nat),
    {
        let uptime = self.uptime_secs();
        self.info_fields_at(key_count, uptime)
    }
}

} // verus!
