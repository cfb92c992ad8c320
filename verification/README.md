# whashreonator

Tooling for keeping Wuthering Waves / WWMI hash mappings up to date across game
versions: it fingerprints assets, compares versioned snapshots, reads 3DMigoto
frame-analysis dumps into asset inventories, weighs cross-version continuity
history, infers probable crash causes, suggested fixes and remap hints from a
compare and the WWMI fix history (`src/inference_engine.rs`, with the findings in
`src/findings.rs`, the hints in `src/mapping_hints.rs`, and the adjustments that
continuity history and a mod's dependency surfaces bring in
`src/continuity_adjust.rs` and `src/mod_adjust.rs`), and renders review summaries: the human-readable summary of an inference
report and its mapping proposals (`src/remap_summary.rs`), the overview of a
stored version (`src/version_summary.rs`) and the saved review bundle
(`src/human_summary.rs`).

## Layout

- `src/` is the library, written in Verus. Each public function states in its
  `ensures` what it returns, over spec functions on sequences, sets and views.
  Properties that span several functions are public proof functions next to the
  code they speak of (for example `comparing_a_snapshot_with_itself_finds_no_change`
  in `src/compare/engine.rs`, or `accepted_entry_paths_stay_inside` in
  `src/ingest/pak_extractor.rs`).
- `tests/` runs the library on concrete inputs.
- `app/` is the command-line program around the library: argument parsing,
  file and archive I/O, JSON export, logging, and the floating-point candidate
  scoring and matching.
