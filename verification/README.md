# laukey

A small log ingestion and search service built on the tantivy search engine.

- `src/` is the verified library (Verus):
  - `schema.rs`: the fields of the log index, the tantivy schema built from
    them, and the lookup of the log fields' ids in a schema.
  - `ingest.rs`: how an incoming log record becomes an index document
    (RFC 3339 timestamp parsed with chrono, fresh ULID, one value per field).
  - `search.rs`: how request parameters become per-field queries, and how a
    stored hit is flattened into the answer; the law that flattening the
    stored values of an ingested record's document gives back its texts.
  - `query.rs`: the field queries parsed with tantivy's query parser and
    joined into one conjunctive query, and the search itself, which hands
    back at most `SEARCH_RESULT_LIMIT` hits.
  - `setup.rs`: the "new setup" flag of the server state.
- `app/` is the HTTP server (axum), the on-disk index and the SQLite user
  database around the library.
- `tests/` exercise the library, including an ingest-then-search round trip
  through an in-memory tantivy index.

`Cargo.toml` pins `zstd-sys` (which tantivy pulls in through `zstd-safe`):
the newest `zstd-sys` no longer exposes items that `zstd-safe` 6.0.6 uses,
and tantivy does not compile against it.
