//! Conversions into the format-neutral `property-graph-model` records.
//!
//! Each parsed record maps field-for-field so a streaming import pipeline
//! can hand the parser's output straight to any consumer of `PgNode` /
//! `PgEdge`. The records are built with that crate's constructors.
use crate::types::{Edge, Node, Property, PropertyView, strings_view};
use property_graph_model::{PgEdge, PgNode, PgProperty};
use vstd::prelude::*;
use vstd::std_specs::convert::FromSpecImpl;

verus! {

#[verifier::external_type_specification]
#[verifier::external_body]
#[verifier::reject_recursive_types(Value)]
pub struct ExPgProperty<Value>(PgProperty<Value>);

#[verifier::external_type_specification]
#[verifier::external_body]
#[verifier::reject_recursive_types(Id)]
#[verifier::reject_recursive_types(Value)]
pub struct ExPgNode<Id, Value>(PgNode<Id, Value>);

#[verifier::external_type_specification]
#[verifier::external_body]
#[verifier::reject_recursive_types(Id)]
#[verifier::reject_recursive_types(Value)]
pub struct ExPgEdge<Id, Value>(PgEdge<Id, Value>);

/// What `PgProperty::new(key, value)` returns: a property with that key and
/// value and no type hint.
pub uninterp spec fn pg_property_new(key: Seq<char>, value: Seq<char>) -> PgProperty;

/// What `property.with_type_hint(hint)` returns: `property` with its type
/// hint set to `hint`.
pub uninterp spec fn pg_property_with_type_hint(property: PgProperty, hint: Seq<char>) -> PgProperty;

/// What `PgNode::new(source_id, labels, properties)` returns: a node record
/// with those fields.
pub uninterp spec fn pg_node_new(source_id: Seq<char>, labels: Seq<Seq<char>>, properties: Seq<PgProperty>) -> PgNode;

/// What `PgEdge::new(source_id, target_id, rel_type, properties)` returns:
/// an edge record with those fields.
pub uninterp spec fn pg_edge_new(
    source_id: Seq<char>,
    target_id: Seq<char>,
    rel_type: Seq<char>,
    properties: Seq<PgProperty>,
) -> PgEdge;

/// `PgProperty::new`: the contract names the record it builds.
#[verifier::external_body]
fn new_pg_property(key: String, value: String) -> (res: PgProperty)
    ensures
        res == pg_property_new(key@, value@),
{
    PgProperty::new(key, value)
}

/// `PgProperty::with_type_hint`: the contract names the record it returns.
#[verifier::external_body]
fn pg_property_hinted(property: PgProperty, hint: String) -> (res: PgProperty)
    ensures
        res == pg_property_with_type_hint(property, hint@),
{
    property.with_type_hint(hint)
}

/// `PgNode::new`: the contract names the record it builds.
#[verifier::external_body]
fn new_pg_node(source_id: String, labels: Vec<String>, properties: Vec<PgProperty>) -> (res: PgNode)
    ensures
        res == pg_node_new(source_id@, strings_view(labels@), properties@),
{
    PgNode::new(source_id, labels, properties)
}

/// `PgEdge::new`: the contract names the record it builds.
#[verifier::external_body]
fn new_pg_edge(source_id: String, target_id: String, rel_type: String, properties: Vec<PgProperty>) -> (res: PgEdge)
    ensures
        res == pg_edge_new(source_id@, target_id@, rel_type@, properties@),
{
    PgEdge::new(source_id, target_id, rel_type, properties)
}

/// The `PgProperty` a property becomes: key, value and type hint kept.
pub open spec fn pg_property_of(p: PropertyView) -> PgProperty {
    match p.type_hint {
        Some(hint) => pg_property_with_type_hint(pg_property_new(p.name, p.value), hint),
        None => pg_property_new(p.name, p.value),
    }
}

/// The `PgProperty` records of a sequence of properties.
pub open spec fn pg_properties_of(ps: Seq<PropertyView>) -> Seq<PgProperty> {
    ps.map_values(|p: PropertyView| pg_property_of(p))
}

impl From<Property> for PgProperty {
    fn from(property: Property) -> (res: Self)
        ensures
            res == pg_property_of(property@),
    {
        let base = new_pg_property(property.name, property.value);
        match property.type_hint {
            Some(hint) => pg_property_hinted(base, hint),
            None => base,
        }
    }
}

impl FromSpecImpl<Property> for PgProperty {
    open spec fn obeys_from_spec() -> bool {
        true
    }

    open spec fn from_spec(v: Property) -> PgProperty {
        pg_property_of(v@)
    }
}

/// The properties as `PgProperty` records, in order.
fn pg_properties_from(properties: Vec<Property>) -> (res: Vec<PgProperty>)
    ensures
        res@ == pg_properties_of(crate::types::properties_view(properties@)),
        res@.len() == properties@.len(),
        forall|i: int| 0 <= i < properties@.len() ==> #[trigger] res@[i] == pg_property_of(properties@[i]@),
{
    let ghost views = crate::types::properties_view(properties@);
    let ghost all = properties@;
    let mut res: Vec<PgProperty> = Vec::new();
    for p in it: properties.into_iter()
        invariant
            it.seq() == all,
            views == crate::types::properties_view(all),
            res@ == pg_properties_of(views).take(it.index() as int),
    {
        res.push(PgProperty::from(p));
        assert(res@ =~= pg_properties_of(views).take(it.index() + 1));
    }
    assert(pg_properties_of(views).take(all.len() as int) =~= pg_properties_of(views));
    res
}

impl From<Node> for PgNode {
    fn from(node: Node) -> (res: Self)
        ensures
            res == pg_node_new(node@.id, node@.labels, pg_properties_of(node@.properties)),
    {
        let properties = pg_properties_from(node.properties);
        new_pg_node(node.id, node.labels, properties)
    }
}

impl FromSpecImpl<Node> for PgNode {
    open spec fn obeys_from_spec() -> bool {
        true
    }

    open spec fn from_spec(v: Node) -> PgNode {
        pg_node_new(v@.id, v@.labels, pg_properties_of(v@.properties))
    }
}

impl From<Edge> for PgEdge {
    fn from(edge: Edge) -> (res: Self)
        ensures
            res == pg_edge_new(edge@.source, edge@.target, edge@.label, pg_properties_of(edge@.properties)),
    {
        let properties = pg_properties_from(edge.properties);
        new_pg_edge(edge.source, edge.target, edge.label, properties)
    }
}

impl FromSpecImpl<Edge> for PgEdge {
    open spec fn obeys_from_spec() -> bool {
        true
    }

    open spec fn from_spec(v: Edge) -> PgEdge {
        pg_edge_new(v@.source, v@.target, v@.label, pg_properties_of(v@.properties))
    }
}


/// Converting a record's properties keeps every one of them, in order: the
/// converted list is as long as the record's, and its `i`-th entry is the
/// `i`-th property converted on its own (`PgProperty::from`).
pub proof fn lemma_conversion_keeps_every_property(ps: Seq<PropertyView>)
    ensures
        pg_properties_of(ps).len() == ps.len(),
        forall|i: int| 0 <= i < ps.len() ==> #[trigger] pg_properties_of(ps)[i] == pg_property_of(ps[i]),
{
}

} // verus!
