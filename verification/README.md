# adr_db_lib

Tooling for Architectural Decision Records, with its rules proved in Verus.

- `src/` — the verified library:
  - `schema`: the ADR document model, its validation rules and their messages,
    the checked status update;
  - `template`: the ADR template and the first record of a new ADR directory;
  - `naming`: ids, directories, remotes, slugs, ADR file names, and the adapter
    detected from a git remote URL;
  - `export`: the Markdown rendering of an ADR;
  - `export_lines`: the rendering seen as labelled lines, and which markers it
    shows for which content;
  - `listing`: the date-ordered listing;
  - `lifecycle`: the cached work-item state and the lifecycle report;
  - `remote`: normalized work items and the Gitea adapter's request and normalization;
  - `problem`: the problem-intake sections, builder, Markdown and form decisions;
  - `install`: the install-prefix checks and the install decision;
  - `tasks`: task-summary records and their table rows;
  - `text`: string primitives (trimming, lines, searching, decimal notation).
- `tests/` — tests of the library.
- `app/` — the command line: files, git, HTTP, SQLite, the terminal form and TOML.
