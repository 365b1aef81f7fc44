# coder

The verified core of a terminal code editor: the file tree and directory
listings, tabs, dialogs, the quickbar, the Git panel's layout and actions,
workspace search and replace, shortcut tables, the language-server session
and text edits, incremental syntax highlighting, the embedded terminal's
screen and scrollback view, and the screen layout with the mouse
hit-testing that goes with it.

- `src/` is the library, written in Verus, and Verus proves its functions
  against their contracts. Calls into outside crates (git2, regex, toml,
  ratatui, syntect, vt100) and into std where vstd has no specification go
  through small trusted wrappers: Verus believes their contracts, which
  follow those crates' sources and std's documentation, and does not prove
  them. A function that reads the clock (`Toast::is_expired`) promises
  nothing of its result; `toast_expired_after` states the rule it applies.
  `src/assets.rs` holds the color schemes and the TOML syntax that ship
  beside syntect's own.
- `app/` is a thin command-line front end. It reads the disk, the repository
  and the clipboard, and prints what the library computes.
- `tests/` runs the library on concrete inputs.
