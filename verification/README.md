# eventline

An execution journal for Rust programs: scopes with outcomes and durations,
events with structured fields, and the views over them (console and text
lines, JSON lines, scope trees, failed and slowest scopes, summaries).

The library in `src/` is verified with Verus. Its state is explicit: a
`Journal`, a `Runtime` (journal, sink configuration, level thresholds) and a
per-thread `ScopeStack` are values that each operation advances, and every
operation states in its contract what it does to them. Configuration
changes return the plan of sinks to build; nothing in the library performs
I/O.

Layout:

- `src/base` — ids, outcomes, values, scopes and records.
- `src/journal` — the journal and its buffer, fields, filters, rotation
  decisions, the properties that hold across journal operations.
- `src/render` — console, text-file and JSON-line rendering, timestamps,
  the canonical narrative format, journal trees and summaries.
- `src/runtime` — levels, sink configuration, scope stacks, run headers and
  the runtime state machine.
- `src/replay.rs` — scope trees, outcomes, failed and slowest scopes.
- `src/configure.rs`, `src/integrations.rs` — one-call setup, and what the
  bridges from other logging frameworks decide.
- `app/` — the process-wide runtime behind a lock, per-thread scope stacks,
  writers (stdout, files, rotation, background queue), macros, drop guards
  and the `tracing` layer and `log` logger.
- `tests/` — tests of the library.
