# tdo

The library behind `tdo`, a command-line tool that reads the Things 3
database and changes items through the `things:///` URL scheme. The library
is written in Verus and verified; the program around it is ordinary Rust.

- `src/` — the verified library:
  - `dates.rs`: Things' bit-packed dates and Unix timestamps as `YYYY-MM-DD`,
    with the calendar proofs (packing round trips, day numbers to dates).
  - `write.rs`: percent-encoding and the `things:///add`, `add-project`,
    `update` URLs.
  - `json.rs`, `model.rs`: JSON values, and rows kept as maps in key order.
  - `queries.rs`: the SQL each read command runs, and how answers become rows.
  - `output.rs`: the TSV text of lists, single items and stats.
  - `cli.rs`, `db.rs`, `error.rs`: command-line decisions (columns, auth
    tokens, write plans, skill files), the retry decisions when opening the
    database, and error messages.
  - `text.rs`: decimal numbers, splitting, trimming, joining and parsing.
- `app/` — the program: argument parsing (clap), SQLite access (rusqlite),
  printing, the `open` command and the skill installer. The installer has
  one target, `~/.agents/skills/tdo/SKILL.md` (`tdo skill`, with or without
  `--codex`); it offers no other skills directory.
- `tests/` — unit tests of the library and end-to-end runs of the read
  commands against a fixture database.
