# chizu

A local repository understanding engine: it models a code base as a graph of
entities (repository, directories, components, source units, symbols, docs,
tests, infrastructure, ...) and edges between them, and answers natural
language questions with a ranked reading plan.

The library in `src/` is written in Verus; every function carries a contract
that the verifier proves.

- `model/` — entity and edge kinds, entities, edges, records, ids.
- `classify`, `retrieve`, `expand`, `rerank`, `plan`, `pipeline` — the query
  pipeline: category of a query, candidate retrieval, one-hop expansion,
  ranking and the text of the reading plan.
- `paths`, `scan`, `index`, `walk`, `manifest`, `registry` — what indexing
  decides: path normalisation and import resolution, front matter and
  Terraform scanning, the entities and edges of each file, walk decisions,
  Cargo and mise manifests, component roots.
- `digest`, `calendar`, `numfmt`, `text` — hashing, dates, number and string
  helpers.
- `style`, `visualize`, `layout`, `diagram` — diagram colours, the nodes and
  edges a diagram shows, and its layered levels.
- `config`, `store_config`, `stats`, `summarize`, `watch` — configuration
  defaults and validation, statistics, summarisation and watch-mode
  decisions.

`app/` holds the command-line program around the library: argument handling,
the SQLite store, file-system watching, floating-point scoring and SVG
drawing.
