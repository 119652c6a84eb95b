# mihon_desktop

The interface logic of a desktop manga reader, written in Verus and proved
against its contracts: navigation, the reader's paging and infinite scroll,
library and chapter ordering and filtering, the screens' state machines, the
events that arrive from background work, the answers to dialogs, and the text
the screens print.

- `src/` is the verified library. Each module covers one screen or concern:
  `reader`, `library`, `chapters`, `details`, `browse`, `source_browse`,
  `extensions`, `updates`, `history`, `downloads`, `settings`, `dialog`,
  `window` (events and dialog answers), `nav`, `capture`, and the shared
  `model`, `order`, `text`, `format`, `time`, `theme`, `session` and
  `statistics`.
- Dates go through `chrono`, behind a few trusted wrappers in `src/time.rs`;
  case-insensitive search goes through std's Unicode lowercasing in
  `src/text.rs`. Each trusted item says in its doc comment what it claims.
- `tests/` exercises the library on concrete values.
- `app/` holds the few helpers that work in floating point (page and grid
  geometry, colours, and reading a chapter number's bits into its key),
  which the library does not hold.
