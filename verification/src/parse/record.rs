//! The parsed record of one line.
use crate::types::{Edge, EdgeView, Node, NodeView};
use vstd::prelude::*;

verus! {

/// One parsed PG-JSONL line.
#[derive(Debug, Clone, PartialEq, Eq)]
pub enum PgJsonlRecord {
    /// A `"type":"node"` line.
    Node(Node),
    /// A `"type":"edge"` (or Neo4j APOC `"type":"relationship"`) line.
    Edge(Edge),
}

/// The mathematical content of a [`PgJsonlRecord`].
pub enum RecordView {
    Node(NodeView),
    Edge(EdgeView),
}

impl View for PgJsonlRecord {
    type V = RecordView;

    open spec fn view(&self) -> RecordView {
        match self {
            PgJsonlRecord::Node(node) => RecordView::Node(node@),
            PgJsonlRecord::Edge(edge) => RecordView::Edge(edge@),
        }
    }
}

} // verus!
