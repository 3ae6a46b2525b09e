# progresshub

Progress tracking for HuggingFace model downloads: percentages and byte
formatting, quantization analysis of repository files, download planning and
scheduling, worker health accounting, debouncing of progress events, the
central dispatcher's decisions and the interpretation of the local cache.

The library in `src/` is written in Verus: every public function carries a
`requires`/`ensures` contract over mathematical models (`Seq`, `Map`, `int`) and
is proved against it. `src/laws.rs` states the properties that relate several
operations (completion and percentage rules, quantization control, cache
directory names, health reports, debouncing, idempotent updates).

Layout:

- `src/calculator/` – percentages, formatting, quantization analysis, immutable
  progress snapshots and the `ProgressCalculator` accessors used by displays.
- `src/central_dispatcher.rs` – decisions of the dispatcher: per-file state,
  scan and dispatch debouncing, finalization steps, the snapshot for displays.
- `src/filesystem_evaluator.rs` – what cache entries mean: range files, resume
  information, manifest completion, scan bookkeeping.
- `src/orchestration.rs` – job priorities and queue, download planning,
  download states, worker health monitoring and statistics.
- `src/debounced.rs`, `src/debounced_progress.rs` – event debouncing and
  write-progress reporting as state machines driven by the caller.
- `src/manifest.rs`, `src/hub.rs`, `src/builder.rs` – manifests, argument
  validation, builders, forwarding retry policy.
- `app/` – the command-line program: argument parsing, HTTP, filesystem access,
  terminal colors and floating-point ratios, all around the library.
- `tests/` – tests of the library on concrete values.
