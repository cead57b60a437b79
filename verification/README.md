# rig-redis-vectorstore

Redis (RediSearch) vector store integration for the Rig LLM framework, with a
library core verified by Verus.

- `src/` is the library. It builds filters and commands and reads replies; every
  function states what it returns, and Verus proves it.
- `app/` is the crate that users of Rig work with. It embeds queries, talks to the
  server through the `redis` crate, and implements Rig's `VectorStoreIndex`,
  `InsertDocuments` and `VectorStoreIndexDyn`.
- `tests/` runs the library.

## The library

| Module | What it holds |
| --- | --- |
| `text` | characters, decimal numerals, ASCII case |
| `escape` | escaping of field names, tag values and text |
| `filter` | filters for `FT.SEARCH` |
| `query` | how a query is read: the laws of filters |
| `json` | JSON values and their flat form in hash fields |
| `reply` | replies of the server and their tokens |
| `response` | `FT.SEARCH` replies in RESP2 and RESP3 form |
| `float` | bit patterns of floating-point numbers |
| `search` | query embeddings, documents, thresholds |
| `command` | commands and pipelines of the `redis` crate |
| `definition` | reading the description of an index |
| `store` | the store's configuration, index and searches |
| `insert` | inserting documents |
| `notice` | what reading fills in or leaves out, for a log |
| `agreement` | how the forms of a reply agree |
| `sequence` | a lemma on filtered sequences |

Floating-point numbers enter the library as plain values: a 64-bit float is its bit
pattern, or the text that it prints as.

## Filters

- `Filter::eq(field, value)` — numeric exact match (`@f:[v v]`), string/bool tag match (`@f:{v}`)
- `Filter::gt` / `lt` / `gte` / `lte` — numeric range; **non-numeric values return an error**
- `Filter::range(field, min, max)` / `range_exclusive`
- `Filter::tag_in(field, values)` — OR over tag values (empty list matches all)
- `Filter::text_contains` (token-AND) and `Filter::text_phrase` (exact phrase)
- `Filter::not`, `and`, `or`
- `Filter::raw(query)` — escape hatch; **do not pass unsanitized user input**

Field names and tag/text values are escaped. The module `query` proves that every
typed filter stays within its own brackets and quotes, and that names and values can
be read back from it.
