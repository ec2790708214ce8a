# orcas_daemon

The decision logic of the Orcas supervisor daemon, written in Verus and proved against its
contracts.

- `src/authority/` — the authority hierarchy (workstreams, work units, tracked threads): commands
  with idempotent receipts, the event log and its projection, delete plans, listings, the import
  of the legacy JSON state, and the laws that tie them together (`laws.rs`, `execute.rs`).
- `src/collaboration/` — the supervisor's collaboration state: creating work, starting
  assignments, recording turn outcomes, decisions, supervisor proposals (generation, staleness,
  approval, rejection) and the read queries over all of it.
- `src/runtime/` — the runtime registry of threads and turns, event handling, listings and the
  one-line event digest.
- `src/assignment_comm/` — the worker report envelope: extraction from worker output, checks
  against the assignment packet, and the downgrade of interrupted or lost turns.
- `src/process.rs` — how runtime overrides shape the configuration and a spawned daemon's
  environment, and what probing the daemon's socket means.
- `src/ids.rs` — object identifiers from a prefix and a unique part, and the one call into
  `chrono` (seconds to milliseconds). Fresh ids and the clock are the caller's: the library takes
  them as arguments (`now`, `unique`, `fresh_id`).
- `app/` — the `orcasd` binary: SQLite persistence of the authority log, JSON decoding, fresh
  uuids and clock readings, and the process and socket I/O.
