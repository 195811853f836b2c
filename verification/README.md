# mihomo-tui

A terminal front end for the [mihomo](https://github.com/MetaCubeX/mihomo) proxy
kernel. The library (`src/`) is written in Verus and verified; the program around
it (`app/`) draws the interface with ratatui and does the work with processes,
files and HTTP.

## Library (`src/`)

- `app` — the interface state, the key-press state machine (`App::handle_key`,
  specified by `key_step`) and the handlers that record the outcome of outside
  work (`on_*`, `apply_*`, `begin_*`).
- `config` — the configuration file model; the provider table is an
  `indexmap::IndexMap`, specified through its ordered entries.
- `command` — subscription naming (percent decoding, `Content-Disposition`),
  decisions about the kernel process (`/proc` entries, capabilities, stop
  outcomes) and the REST addresses of the kernel.
- `log`, `settings`, `ui`, `text`, `constants` — the log, the settings, the texts
  shown on screen and character-level helpers.

Laws that span several functions are public proof functions named `law_*`.

## Program (`app/`)

`main.rs` runs the event loop; `runtime.rs` performs the `Action`s that key presses
return and hands results back to the library; `files.rs`, `http.rs`, `kernel.rs`
and `view.rs` hold serde copies and file access, the HTTP calls, process and
system-proxy handling, and drawing.
