# tordln

A terminal torrent download manager. The crate is a Verus-verified library
(`src/`) holding the program's state and decisions, and a thin application
(`app/`) that drives the terminal, the clipboard, the file system and the
torrent engine.

- `src/text.rs` — character-level helpers (trimming, prefixes, decimal
  rendering, padding, truncation).
- `src/paths.rs` — the two path questions answered by `std::path`.
- `src/input.rs` — keys as the library sees them.
- `src/config.rs` — settings, their defaults, the speed-limit editor.
- `src/engine.rs` — torrent, file and detail snapshots; names, file lists and
  file selections computed from the engine's raw values.
- `src/modal.rs` — the add dialog: focus order, checkboxes, path and limit
  editing, confirm/cancel.
- `src/pickup.rs` — torrent-link and .torrent-file detection, the clipboard
  poller's and folder watcher's decisions.
- `src/ui.rs` — the screen state.
- `src/control.rs` — key and mouse handling, the add flow (waiting source,
  open dialog, confirm/cancel), pickups that open the dialog,
  list refresh, the found-files list.
- `src/view.rs` — texts and highlights shown on screen.
