# athar

A local application-security runtime for payment flows: a daemon that takes
canonical events from in-process shims over a local socket, keeps an
append-only evidence log within a disk quota, commits every event to a signed
hash chain, tracks payment lifecycles, and turns detection signals into
explainable policy decisions, shedding its own work (and recording that it
did) when the host is under pressure.

The library (`src/`) is verified with Verus: each public function carries a
contract over a mathematical model of its data, and the properties that span
several calls stand as proof functions beside the code.

## Layout

- `src/text.rs`, `src/bytes.rs`, `src/table.rs`: strings, big-endian byte
  encodings and small keyed tables, with their specifications.
- `src/storage/`: record framing, the disk quota, and the segmented evidence
  log's bookkeeping (naming, crash recovery, rotation, accepted appends).
- `src/audit/`: the hash-chained audit log (BLAKE3 record hashes, Ed25519
  segment signatures), its verification, hex encoding, and the writer that
  closes and resumes segments.
- `src/event.rs`: the canonical event and its validation.
- `src/governor.rs`: pressure levels, the dead-man's switch and work shedding.
- `src/lifecycle/`: lifecycle types, the store interface with an in-memory
  store, the correlation and state-transition engine, and the staleness
  scanner.
- `src/detection/`: rate trackers, signals, policies, decision records and
  the detection configuration.
- `src/calendar.rs`: the proleptic Gregorian calendar used for receive
  timestamps.
- `src/ingest.rs`: drop accounting and the coverage-gap record, receive
  timestamps, and the detection stage run on each event.
- `app/`: the daemon and the operator command line: sockets, files, SQLite
  stores, JSON, host metrics and the clock.
- `tests/`: tests of the library through its public API.
