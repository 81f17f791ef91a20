# Forge

Forge is a small modal text editor for the terminal. This crate holds its
core as a library whose behaviour is stated in contracts and proved with
Verus, and, under `app/`, the program around it.

## Layout

- `src/text.rs`: the model of a text as a sequence of characters: the line
  and column of every offset, the lines as `str::lines` yields them, and the
  part of a text a window shows.
- `src/buffer.rs`, `src/editor.rs`: the buffer of one open document (insert,
  backspace, replace, save outcome, version and dirty flag) and the set of
  open buffers, one per document.
- `src/workspace.rs`, `src/session.rs`, `src/ids.rs`, `src/paths.rs`: a
  workspace with its open documents and active document, and the session that
  holds the open workspace and says which events each change announces.
- `src/cursor.rs`, `src/viewport.rs`, `src/editor_state.rs`, `src/keys.rs`:
  the cursor, the scrolled window, the editor mode and what each key does.
- `src/command.rs`, `src/event_bus.rs`, `src/config.rs`, `src/runtime.rs`:
  the command registry, the event bus, the settings and the runtime's
  lifecycle decisions.
- `app/`: the program: file and terminal I/O, locks, async tasks, signal
  handling, the configuration file format and the terminal interface.
- `tests/`: tests of the library.

Verify the library with `verus` on `src/lib.rs`; every function there is
verified, and the few calls into the standard library that vstd does not
describe go through small wrappers whose contracts are stated beside them.
