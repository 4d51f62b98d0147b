# mica

Core logic of a terminal text editor as a Verus library. Functions in
`src/` carry `requires`/`ensures` contracts that Verus proves; the calls into
outside crates are trusted, as described below.

- `src/app/state.rs` — the editor's tab, clipboard, command palette, close
  confirmation, crash-recovery prompt, language-server hover and
  go-to-definition replies and save state, and `AppState::update`, which takes it from
  one event to the next and returns the effects for the caller to perform.
  It covers those flows only: the explorer tree, git and search panels, the
  terminal panel, the other language-server requests and session restore are not part
  of this state, and `AppState::handles` says which events it answers.
- `src/buffer/` — text buffers over `ropey`: edits, undo/redo, line
  operations, line endings and BOM, save snapshots and external changes.
- `src/editor/` — cursor movement by grapheme cluster and display column,
  soft wrapping, buffer search state, syntax languages and tree-sitter
  highlighting.
- `src/lsp/` — message framing, JSON reading, UTF-16 positions, file URIs,
  snippet expansion, replies to requests, and the connection state machine.
- `src/diagnostics/` — per-source diagnostics merged by priority, and cargo
  messages.
- `src/git/` — porcelain status, unified diffs, branches, and the git runs
  the editor makes.
- `src/search/`, `src/config/`, `src/command/`, `src/terminal/`,
  `src/session.rs`, `src/navigation.rs`, `src/panels.rs` — workspace and
  fuzzy search, settings and key maps, the command registry, the terminal
  screen model, session snapshots, jump history and panel rows.

Calls into outside crates sit behind small `#[verifier::external_body]`
wrappers whose contracts say what the crates document; each is marked in its
doc comment.

`app/` is ordinary Rust around the library: the command line, the loop that
performs the state's effects, file and process I/O, the git and language-server processes, and the `serde`,
`clap` and `toml` conversions. `tests/` runs the library with the real
outside crates.
