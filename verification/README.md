# pg_jsonl

An owned, streaming parser for property-graph JSON Lines (PG-JSONL), written
in Verus: one JSON object per line describing a node or an edge, in the plain
dialect or in Neo4j APOC `apoc.export.json`.

Layout of `src/`:

- `text.rs`: Unicode whitespace trimming, splitting at a character, and the
  physical lines of a document (`lines_of`), with the `str` functions they use.
- `json.rs`: what `serde_json` makes of a text, handed on as plain values: the
  members of a JSON object with each value's text as written, a map of values,
  a string, or a list of strings.
- `value.rs`: members of a `properties` object to text properties with type
  hints.
- `parse/wire.rs`: the record grammar of the two dialects (`line_of`).
- `parse/stream.rs`: `PgJsonlStreamParser`, one physical line at a time
  (`line_result`).
- `parse/entry.rs`: whole documents (`document_records`), `parse_pg_jsonl` and
  `parse_pg_jsonl_with`.
- `pg.rs`: field-for-field conversions into `property-graph-model` records.
- `error.rs`, `types.rs`: the error and record types and their views.

`app/` gives the error type `Display` and `std::error::Error` through a copy of
it that derives `thiserror::Error`.
