# opencode-selector

A keyboard-driven terminal picker for [opencode](https://opencode.ai)
sessions (binary `opcs`): browse, search, preview, rename, delete and launch
sessions, and sort them into folders kept in a sidecar file.

The selector's logic is a library proved correct with Verus; the terminal,
the database, the files and the network stay in a thin front end.

## Layout

- `src/` — the verified library.
  - `app.rs` — the selector's state, its filters (project, folder, search)
    and sort orders; the session list is proved to hold exactly the matching
    sessions in sort order.
  - `commands.rs` — the `:` command line: the command table, fuzzy
    completion and each command.
  - `events.rs` — what every key does, as a step function from state and key
    to new state and the outside work to do (rename or delete in the
    database, save the folder store).
  - `folders.rs` — the folder store: folders, session mappings, and their
    laws (a moved session is found in its folder, others stay put, ...).
  - `records.rs` — sessions from database rows: model names, message
    previews cut at 300 bytes, messages, project names and directories.
  - `display.rs` — labels, cut texts, relative times and list geometry for
    the screens.
  - `opencode_theme.rs`, `theme.rs`, `color.rs` — colours from opencode
    themes and the user's config.
  - `config.rs`, `cli.rs`, `upgrade.rs` — paths, the command line and the
    self-upgrade decisions.
  - `text.rs`, `number.rs`, `sort.rs`, `strmap.rs`, `json.rs`, `model.rs` —
    the building blocks.
- `tests/` — tests of the library on concrete values.
- `app/` — the `opcs` program: argument parsing, SQLite, TOML files,
  drawing with ratatui, the crossterm event loop and launching opencode.

## Building and checking

The library verifies with Verus; the tests and the program build with
cargo against the library.
