# qcheat

An external reader for the ioquake3 client on Windows: it finds the game
process, reads its memory, and recognises the engine's own structures
(`entityState_t`, `playerState_t`, `snapshot_t`) in raw heap bytes.

## Layout

- `src/` — the library, verified with Verus:
  - `layout` decodes the engine structures from little-endian bytes;
  - `floatbits` holds the IEEE-754 predicates the filters need, on bit
    patterns;
  - `entity`, `locate` hold the sanity filters for entities and snapshot
    headers, the per-frame entity views, and the choice of the active
    snapshot;
  - `scan` and `locate` hold the chunked scan walks as state machines that
    the caller feeds with the bytes it read;
  - `stride` finds array layouts in scattered hits;
  - `numparse`, `util`, `config` parse addresses and virtual-key codes
    exactly as `usize::from_str_radix` does;
  - `menu` is the keyboard state machine of the settings menu;
  - `process`, `wide`, `diag` cover name matching, UTF-16 strings and the
    diagnostic report;
  - `laws` states the properties that relate several functions.
- `tests/` — tests on concrete values.
- `app/` — the `qcheat` command line: Win32 calls, printing, and the
  float arithmetic of the filters.
