# tendril

A personal wiki's logic, verified with Verus: notes with a `key: value` header,
the wiki-link markup language and its HTML rendering, the backlink and tag
store, search tokenisation and index upkeep, page templates, and the decisions
of the task runners.

## Layout

- `src/` — the verified library.
  - `text`, `urls`, `order`: character-sequence helpers, URL encoding and link
    targets, the order of strings with a verified sort.
  - `metadata`, `tags`, `patch`, `headers`, `meta`, `templates`: notes, their
    metadata table, tag lists, the two note formats and what a page shows.
  - `machine`, `html`, `embeds`: the link parser's state machine, rendering of
    note text, and media players.
  - `store`, `references`: the backlink store (keys kept sorted) and how it
    follows notes being added, deleted and renamed.
  - `search`, `index_store`: terms, term counts, the search index's bookkeeping,
    the stored term lists (bincode) and the text of decompressed archived pages.
  - `render`, `pages`: include lines, metadata tables, backlinks and the pages.
  - `runners`, `messages`, `jobs`, `todo`: what the task runners decide.
  - `paths`, `persist`, `setup`, `server_config`: file locations, what a write
    stores, setup answers, conversion of old notes and the static site.
- `tests/` — tests run against the compiled library.
- `app/` — the `tendril` command: terminal, files, configuration and the
  search index on disk.
