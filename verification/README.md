# smart_file_organizer

A desktop file organizer's core, verified with Verus: scanning decisions,
classification, plan building, plan validation, execution and rollback
bookkeeping, user habit rules (skills), AI request sanitizing, provider
requests and response checks, and the conversions between the library's
values and what the front end and the store see.

## Layout

- `src/` — the verified library. Each module states its behaviour over spec
  functions; `src/laws.rs` holds the properties that span functions (plans
  and batches read back from their records, rollback records undo what was
  executed, a sanitized prompt holds no secret, ...).
- `tests/` — tests of the library on concrete values.
- `app/` — the shell around the library: the file system (the directory
  walk, the probes that validation needs, the steps of an execution or a
  rollback), the SQLite store, the asynchronous service traits and the JSON
  shapes of stored plans and batches.

Outside crates used by the library, behind small trusted wrappers: `uuid`
(ids), `chrono` (clock and RFC 3339 texts), `sha2` (path hashes),
`mime_guess` (MIME types) and `serde_json` (reading provider replies).
