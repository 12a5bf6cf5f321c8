# orbitdock_server

The decision logic of the OrbitDock server, written in Verus with its behaviour stated
as `requires` / `ensures` contracts and proved.

- `src/` is the verified library. Each module covers one area: bearer tokens
  (`auth_tokens`), release channels and update checks (`releases`), token usage
  accounting (`usage`), workspace sync sequencing and replay (`sync`, `sync_writer`,
  `persist_sync`), session configuration and what an update writes (`codex_config`,
  `session_config`, `session_writes`), conversation rows and forks (`conversation`), how the message store
  numbers and deduplicates rows (`message_store`), taking over a passive session
  (`takeover`),
  the dashboard text and ordering rules (`dashboard`), hook and thread bookkeeping
  (`pending_hooks`, `thread_registry`), input delivery (`dispatch`), log housekeeping
  (`logging`, `housekeeping`), timestamps (`timefmt`), legacy migration history
  (`migrations`) and the error codes clients see (`session_errors`).
  Calls into outside crates (ring, base64, semver, dashmap, serde_json) go through
  small trusted wrappers whose contracts state what those crates document.
- `tests/` exercises the library on concrete values.
- `app/` is the unverified shell around it: SQLite, HTTP, file system, logging
  setup and pricing, which hand plain values to the library and act on what it returns.
