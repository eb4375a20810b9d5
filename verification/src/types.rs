//! Owned records produced by the parser, and their mathematical views.
use vstd::prelude::*;

verus! {

/// A property-graph node.
#[derive(Debug, Clone, PartialEq, Eq)]
pub struct Node {
    /// The node's identifier, as written in the file: a JSON string's
    /// contents, or a JSON number's token (`1.50` stays `1.50`).
    pub id: String,
    /// Zero or more labels.
    pub labels: Vec<String>,
    /// Properties in the order of their names.
    pub properties: Vec<Property>,
}

/// A property-graph edge (relationship).
#[derive(Debug, Clone, PartialEq, Eq)]
pub struct Edge {
    /// The edge's own identifier, when the file carries one, kept as the
    /// node's `id` is.
    pub id: Option<String>,
    /// The source (start) node identifier, kept as the node's `id` is.
    pub source: String,
    /// The target (end) node identifier, kept as the node's `id` is.
    pub target: String,
    /// The relationship type / label.
    pub label: String,
    /// Properties in the order of their names.
    pub properties: Vec<Property>,
}

/// One property with its value rendered as text and the JSON type it
/// came from as a hint.
#[derive(Debug, Clone, PartialEq, Eq)]
pub struct Property {
    /// Property name.
    pub name: String,
    /// The value as text: strings verbatim, numbers and booleans in
    /// their JSON spelling, arrays and objects as compact JSON.
    pub value: String,
    /// The JSON type: `string`, `int`, `float`, `boolean`, or `json`
    /// for arrays and objects.
    pub type_hint: Option<String>,
}

/// The mathematical content of a [`Property`].
pub struct PropertyView {
    pub name: Seq<char>,
    pub value: Seq<char>,
    pub type_hint: Option<Seq<char>>,
}

/// The mathematical content of a [`Node`].
pub struct NodeView {
    pub id: Seq<char>,
    pub labels: Seq<Seq<char>>,
    pub properties: Seq<PropertyView>,
}

/// The mathematical content of an [`Edge`].
pub struct EdgeView {
    pub id: Option<Seq<char>>,
    pub source: Seq<char>,
    pub target: Seq<char>,
    pub label: Seq<char>,
    pub properties: Seq<PropertyView>,
}

/// The view of an optional string.
pub open spec fn opt_str_view(s: Option<String>) -> Option<Seq<char>> {
    match s {
        Some(text) => Some(text@),
        None => None,
    }
}

/// The views of a sequence of strings.
pub open spec fn strings_view(s: Seq<String>) -> Seq<Seq<char>> {
    s.map_values(|text: String| text@)
}

/// The views of a sequence of properties.
pub open spec fn properties_view(s: Seq<Property>) -> Seq<PropertyView> {
    s.map_values(|p: Property| p@)
}

impl View for Property {
    type V = PropertyView;

    open spec fn view(&self) -> PropertyView {
        PropertyView { name: self.name@, value: self.value@, type_hint: opt_str_view(self.type_hint) }
    }
}

impl View for Node {
    type V = NodeView;

    open spec fn view(&self) -> NodeView {
        NodeView {
            id: self.id@,
            labels: strings_view(self.labels@),
            properties: properties_view(self.properties@),
        }
    }
}

impl View for Edge {
    type V = EdgeView;

    open spec fn view(&self) -> EdgeView {
        EdgeView {
            id: opt_str_view(self.id),
            source: self.source@,
            target: self.target@,
            label: self.label@,
            properties: properties_view(self.properties@),
        }
    }
}

} // verus!
