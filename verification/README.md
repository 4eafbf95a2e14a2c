# things3-cloud

A command-line client for Things 3 that talks to the Things Cloud API, with
its logic written in Verus and proved against its contracts.

## Layout

- `src/` — the verified library.
  - `ids/` — item identifiers: base58 text, legacy UUID conversion, the
    shortest unique prefixes shown in lists.
  - `wire/` — the wire protocol: operation and entity codes, property
    values and patches, notes.
  - `store/` — folding the history log into state, building the store, and
    the list views (inbox, today, anytime, logbook, projects, areas, tags)
    and identifier resolution over it.
  - `commands/` — planning the changes each command sends (new, schedule,
    delete, edits, creates) and the data behind each view (find, project,
    area, tag tree, listings).
  - `ui/` — what each line of a view shows and how tall each block is.
  - `sync.rs` — the decisions of the paging loop that keeps the local log
    up to date.
  - `sdk.rs` — the request and result types of the service layer.
- `app/` — the program around the library: argument parsing, the HTTP
  client, files, JSON, and printing.
- `tests/` — tests of the library on concrete values.

Calls into outside crates (`uuid`, `sha1`, `rand`, `crc32fast`, `chrono`)
and a few calls into std (collecting characters into a string, Unicode
lower-casing, `Debug` quoting of text) stand in small
wrappers whose contracts state what the crates and std document; these
wrappers are trusted, and everything else in `src/` is proved.
