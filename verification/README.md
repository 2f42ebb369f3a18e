# desknote

The verified core of DeskNote, a desktop sticky-note application.

- `src/types.rs` — notes, colours, settings; how a new note is made.
- `src/state.rs` — the in-memory note store and every operation on it,
  with the laws those operations obey.
- `src/storage.rs` — where the data lives, how read files are interpreted,
  which backups are restored from or removed, and the write-retry rule.
- `src/events.rs` — event names and note window labels.
- `src/platform.rs` — the calls into the clock, the UUID generator and the
  Unicode case mapping, with what is assumed of them.
- `app/` — the desktop shell: window runtime, tray, global shortcut, file
  I/O and JSON, around the library.
