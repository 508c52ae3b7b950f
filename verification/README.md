# libran

The verified core of Libran, a terminal bibliography manager. Every function
under `src/` carries a Verus contract and is proved against it; `app/` is a
small command-line front end that does the file, directory and PDF work and
hands plain values to the library.

## Layout

- `src/text.rs`, `src/number.rs`: character-sequence helpers and decimal
  parsing/formatting, with specifications that the other modules build on.
- `src/fts_query.rs`, `src/search.rs`, `src/criteria.rs`: full-text query
  planning, facet queries and saved-search conditions as SQL text.
- `src/lexicon.rs`, `src/authors.rs`, `src/heuristic.rs`, `src/metadata.rs`,
  `src/matching.rs`, `src/journal.rs`, `src/identifiers.rs`, `src/pipeline.rs`:
  metadata read from a PDF (title heuristics, author lines, DOI and arXiv
  identifiers, journal names).
- `src/documents.rs`, `src/creators.rs`, `src/records.rs`, `src/ranking.rs`:
  documents, structured creators, author lists and journal-based series
  proposals.
- `src/export.rs`, `src/dialog.rs`: export formats, custom templates and the
  export dialog's state machine.
- `src/scoring.rs`: the UDC tree and classification match levels.
- `src/sidebar.rs`, `src/document_list.rs`, `src/detail.rs`, `src/note_section.rs`, `src/theme.rs`,
  `src/settings.rs`, `src/settings_keys.rs`, `src/settings_lines.rs`: what
  the panels show, themes, and the settings panel's lines and key handling.
- `src/storage.rs`, `src/dragdrop.rs`, `src/okular.rs`, `src/sioyek.rs`,
  `src/outline.rs`: library file names and hashes, dropped paths, reader
  integrations and PDF bookmarks.
- `src/merge.rs`, `src/import.rs`, `src/migrations.rs`, `src/queue.rs`,
  `src/series_grouping.rs`: merging another library, schema migrations, the
  reading queue, and series bundled by journal.

Laws that span several functions are public proof functions whose names start
with `law_`.

## Checking

`tests/` holds the executable tests; they run against the real outside crates
(`regex`, `unicode-normalization`, `sha2`), which the library reaches only
through a few wrappers whose contracts are stated next to them.
