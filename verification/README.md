# vsrecent

A launcher for VS Code's "Open Recent" folders on Windows: it reads the
recent-folder history from VS Code's shared state database, lists the
folders with a coloured tag for their remote kind, filters them as you type,
and opens the chosen one in VS Code.

The library (`src/`) holds the logic of the program, each function with a
contract proved by Verus:

- `text`: character-level string operations (ASCII case, prefixes, search,
  decimal formatting).
- `decode`: percent-decoding of URI components.
- `remote`: remote kind, group key, group name and default label of a URI.
- `history`: reading the history JSON into entries (JSON parsing by
  `serde_json`).
- `filter`: white-space tokens and which entries a query shows.
- `groups`: the remote groups of the remote filter, in key order, with counts.
- `picker`: the state behind the window (entries, shown rows, remote filter).
- `theme`: light and dark themes, command-line and registry theme choice, row
  colours.
- `window`: key handling, command routing, selection movement, DPI-scaled
  layout.
- `recent`: the steps of reading the database (live read, snapshot, snapshot
  read), what a query step's status and text column give, and the messages.
- `launch`: the VS Code command line, the launch outcome and what the window
  does after it, and recognising a hidden VS Code window.

`app/` is the Win32 program around it: creating and painting the window and
its controls, the message loop, the SQLite calls through `winsqlite3.dll`,
the file system and the environment. It calls the library for what to show
and what to do next; the choices that belong to those calls themselves
(which handle to close, which control to resize, when to repaint, where the
window first appears) stay in `app/`.
