# mcat

mcat (Music CATalog) manages music files along with their metadata: it keeps
a repository of tracks in SQLite under `.mcat/`, and offers `init`, `list`,
`add`, `remove` and `update` on the command line.

## Layout

- `src/` is the library, verified with Verus:
  - `cli.rs`, `commands.rs`, `commands/`: the parsed command line and the
    decisions of the subcommands (listed columns, patches of an update, the
    tracks stored by `init`, the comparison done by `check`, the edit of tag
    attributes, the tracks shown by `display`);
  - `repos/track_repo*`: the SQL statements of the track repository, with a
    proof that a filter's WHERE clause selects exactly the tracks the filter
    accepts;
  - `repos/toml_repo.rs`, `db.rs`: the TOML-backed repository and database in
    memory, entries sorted by key, with the laws of insert, remove, query and
    the total hash;
  - `display.rs`, `edit.rs`: the lines that show a tag, and what an edit
    writes into one; `services.rs` also gives the stable hash of a track
    file, its data hashed with the tags removed;
  - `models*`, `common.rs`, `paths.rs`, `text.rs`,
    `config.rs`: track models and filters, rows as listed, paths, text
    helpers, hashing.
- `app/` is the program around it: argument parsing with clap, SQLite with
  rusqlite, tags with lofty, files, TOML files and printing.
- `tests/` runs the library on concrete values, including its statements
  against an in-memory SQLite database.

## Not included

Three features of the TOML-backed repository would rest on types that were
never defined (an image data type, the arguments of an edit, further fields
of `TagAttributes`), so they are not here:

- editing the front cover, dates, track and disc numbers, composer and
  lyricist of a repository entry (title, artist, album, album artist and
  genre can be edited);
- linking the front cover to an image file under `.mcat/images/` when media
  are scanned or imported;
- removing that image file when an entry is removed.
