# llama-hud

A btop-style terminal dashboard for `llama-server`: per-slot progress and
token rates from `/slots`, server-wide figures from the Prometheus `/metrics`
endpoint, an optional tail of the server log from a tmux pane, and an
in-terminal editor for `~/.config/llama-hud/config.json`.

## Layout

- `src/` — the library, with its specifications and proofs.
  - `slot_state.rs` — the state of one slot after a poll (phase, progress,
    rate windows), as a spec function and its executable counterpart.
  - `app.rs` — the dashboard state: the slot table (kept sorted by id), chart
    histories, log buffer with folding of repeated lines, selection, view
    toggles and the configuration editor, with the transitions that polls,
    log lines and key presses cause.
  - `parser.rs` — recognises the `prompt processing` progress lines of the
    server log and derives the expected prompt size, in exact arithmetic.
  - `metrics.rs` — picks the known metrics out of a Prometheus exposition.
  - `log_tailer.rs` — finds the new lines in successive pane captures.
  - `slots.rs`, `config.rs`, `layout.rs`, `text.rs` — the `/slots` records,
    the settings, panel layout decisions, and text helpers.
  - `laws.rs` — properties that span several operations.
- `app/` — the program: terminal setup and drawing (ratatui, crossterm), HTTP
  polling (reqwest, tokio), JSON (serde), and the floating-point figures shown
  on screen.
- `tests/` — tests of the library.
