# lcsc-scrape

Collects part information from LCSC product pages and the JLCPCB SMT parts
search into a local SQLite database, and queries it.

The library in `src/` holds the logic, each function with a contract proved
by Verus. The calls into `scraper`, `regex`, `linked_hash_set` and a few std
functions sit behind small trusted wrappers whose contracts name what the
call returns:

- `text` — whitespace, trimming, ASCII filtering, substring tests, decimal
  rendering, all stated over `Seq<char>`.
- `page` / `scrape` — the key/value pairs of the tables of a product page;
  `scrape` reads the page with `scraper` into plain cells, each stated over
  what the selectors find in the document, and `page` extracts the pairs.
- `fetch` — what is done for each part during a fetch (download, read the
  cache, store, or move on), as a step function the program drives.
- `lcsc` — the search URL and the product link read from a search response.
- `jlc` — JLCPCB results: merging pages, the paging state, and the pairs of
  a part.
- `parts` — part number validation, the `_b` basic marker, parts lists and
  spreadsheets, and the record kept for a part (one pair per key, the first one kept).
- `sql` — the statements that add columns and store parts.
- `postprocess` — which columns get a typed `pp_` copy and how their values
  are read.
- `query` — the columns and values shown for a query.
- `pattern` — the regular expressions, matched with `regex`.

`app/` is the command line program: HTTP, the download cache, SQLite, the
spreadsheet reader, logging, and the floating point parts of
post-processing.
