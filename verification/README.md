# irondb

A small Redis-like in-memory key-value server with per-key expiration and
JSON snapshots, whose core is verified with Verus.

- `src/` — the verified library:
  - `command` — the line-based command language and `parse_command`;
  - `store` — the key-value store with lazy and periodic expiration;
  - `protocol` — running commands (`execute_at`, `execute_command`,
    `parse_and_dispatch`), finishing snapshot work, and rendering replies;
  - `persistence` — which entries go into and come out of a snapshot;
  - `stats` — server counters and the `INFO` fields;
  - `text` — whitespace splitting, case folding, decimal rendering/parsing;
  - `clock` — the system and monotonic clocks;
  - `laws` — properties proved across operations.
- `app/` — the server program: command-line arguments, TCP connections,
  snapshot files and the cleanup timer.
- `tests/` — tests of the library.
