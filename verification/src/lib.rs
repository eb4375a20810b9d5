//! An owned, streaming parser for property-graph JSON Lines (PG-JSONL): one
//! JSON object per line describing a node or an edge.
//!
//! Two dialects are accepted on every line, so files may mix them: the plain
//! dialect (`"type":"node"` / `"type":"edge"` with `source` and `target`)
//! and Neo4j APOC `apoc.export.json` (`"type":"relationship"` with `start`
//! and `end` objects). Identifiers may be JSON strings or numbers; they are
//! kept as text. Property values are rendered as text with the JSON type as
//! a hint; `null` properties are skipped.
pub mod error;
pub mod json;
pub mod parse;
pub mod pg;
pub mod text;
pub mod types;
pub mod value;

pub use error::PgJsonlError;
pub use parse::entry::{parse_pg_jsonl, parse_pg_jsonl_with};
pub use parse::record::PgJsonlRecord;
pub use parse::stream::PgJsonlStreamParser;
pub use types::{Edge, Node, Property};
