# mobile_sentinel

A capability kernel for Android alarm and kiosk apps, written in Verus: the
logic is executable Rust with `requires` / `ensures` contracts, proved by
Verus. A few small items are trusted rather than proved: the wrappers around
`str::to_lowercase`, `Path::exists` and `uuid::Uuid::new_v4`, the
specification of `String::push`, and the declarations of the outside types
`SystemTime`, `io::Error` and `serde_json::Value`.

## Layout

- `src/build/` — the `build_sentinel` tooling as pure functions on text:
  the capability table and the feature graph (`registry`, `feature_graph`,
  `capability_ids`), the manifest and Gradle edits (`helper`), the readers
  of `sentinel.toml`, the command line and the consumer's `Cargo.toml`
  (`config`), and the laws that hold across calls (`laws`,
  `manifest_laws`, `gradle_laws`, `activity_laws`): the feature closure is
  the least closed set, the registry's answers ignore order and repetition,
  re-running an edit writes what the first run wrote, stripping undoes an
  injection and leaves no marker.
- `src/features/` — the capabilities' host behaviour and decoders, the Job
  Guardian lifecycle (`jobs`), the Sound Library (`sound`) and the state
  store's revision discipline (`state_store`).
- `src/firing.rs`, `src/platform/` — the firing seam (`FiringSink` and a
  recording mock), the plans the Android firing sink carries out, and the
  sensor state with its shake cooldown.
- `src/text.rs` — character-sequence utilities the rest is stated over.
- `tests/` — executable tests of the library.
- `app/` — the `build_sentinel` program and the file, JSON, logging and
  process-wide state around the library.
