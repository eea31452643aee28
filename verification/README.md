# sone-papdi

The core of a Wayland desktop shell — clipboard history, application
launcher, event subscriptions and IPC framing — written as a Verus library
whose behaviour is stated in `requires`/`ensures` contracts and proved.

## Layout

- `src/` — the verified library.
  - `text.rs`, `sorting.rs` — character-sequence helpers (whitespace splitting,
    case folding, substring and subsequence tests) and a stable insertion sort,
    each with its mathematical model.
  - `clipboard/` — content hashing, MIME classification and preference,
    the entry written to the history store and the queries read back, the
    polling watcher's de-duplication, and the Wayland thread's decisions.
  - `launcher/` — `.desktop` parsing rules, de-duplication and ordering of
    applications, fuzzy scoring and ranking, and launch command lines.
  - `api.rs` — topic subscriptions, the internal client table and command
    dispatch.
  - `ipc.rs` — length-prefixed framing.
  - `config.rs`, `paths.rs`, `events.rs` — configuration sections and their
    defaults, runtime paths and sockets, and the shell's event types.
- `tests/` — tests run against the compiled library with the real
  dependencies linked.
- `app/` — the runtime around the library: SQLite, sockets, D-Bus, the Wayland
  connection, configuration files and the command-line client.

Laws that span several functions are public proof functions named `lemma_*`
(for example `lemma_frame_round_trip`, `lemma_results_ranked`,
`lemma_strip_field_codes_idempotent`).
