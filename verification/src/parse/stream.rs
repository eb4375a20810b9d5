//! Stateful line-by-line streaming parser.
use crate::error::{ErrorView, PgJsonlError};
use crate::parse::record::{PgJsonlRecord, RecordView};
use crate::json::{AtomView, FieldView, json_map_fields, json_object_fields, json_string, json_string_list, keys_ascending};
use crate::parse::wire::{edge_id_of, endpoint_of, lemma_edge_spellings_agree, lookup, node_id_of, EdgeLine, EdgeLineView, Line, LineView, NodeLine, NodeLineView, WireError, WireErrorView, line_from, line_of};
use crate::text::{trim, trim_seq};
use crate::types::{Edge, EdgeView, Node, NodeView, PropertyView};
use crate::value::{
    lemma_one_property_per_non_null_member, names_ascending, non_null_members, properties_from, properties_of, property_of,
};
use vstd::prelude::*;

verus! {

/// The error a line's shape failure is reported as, on line `line`.
pub open spec fn wire_error_at(line: nat, error: WireErrorView) -> ErrorView {
    match error {
        WireErrorView::Json(detail) => ErrorView::Json { line, detail },
        WireErrorView::UnknownVariant(kind) => ErrorView::UnknownType { line, kind },
    }
}

/// The node a `node` line on line `line` makes: its identifier must not be
/// empty.
pub open spec fn node_at(line: nat, node: NodeLineView) -> Result<NodeView, ErrorView> {
    if node.id.len() == 0 {
        Err(ErrorView::EmptyField { line, field: "id"@ })
    } else {
        Ok(NodeView { id: node.id, labels: node.labels, properties: properties_of(node.properties) })
    }
}

/// The edge an `edge` line on line `line` makes: its `source`, `target` and
/// `label` must not be empty, and are checked in that order.
pub open spec fn edge_at(line: nat, edge: EdgeLineView) -> Result<EdgeView, ErrorView> {
    if edge.source.len() == 0 {
        Err(ErrorView::EmptyField { line, field: "source"@ })
    } else if edge.target.len() == 0 {
        Err(ErrorView::EmptyField { line, field: "target"@ })
    } else if edge.label.len() == 0 {
        Err(ErrorView::EmptyField { line, field: "label"@ })
    } else {
        Ok(
            EdgeView {
                id: edge.id,
                source: edge.source,
                target: edge.target,
                label: edge.label,
                properties: properties_of(edge.properties),
            },
        )
    }
}

/// What parsing `text` as physical line number `line` gives: nothing for a
/// blank line, else its record or the error, carrying `line`.
pub open spec fn line_result(line: nat, text: Seq<char>) -> Result<Option<RecordView>, ErrorView> {
    let trimmed = trim_seq(text);
    if trimmed.len() == 0 {
        Ok(None)
    } else {
        match line_of(trimmed) {
            Err(error) => Err(wire_error_at(line, error)),
            Ok(LineView::Node(node)) => match node_at(line, node) {
                Ok(n) => Ok(Some(RecordView::Node(n))),
                Err(e) => Err(e),
            },
            Ok(LineView::Edge(edge)) => match edge_at(line, edge) {
                Ok(e) => Ok(Some(RecordView::Edge(e))),
                Err(e) => Err(e),
            },
        }
    }
}

/// A line's error carries that line's number.
pub proof fn lemma_error_carries_line_number(line: nat, text: Seq<char>)
    ensures
        line_result(line, text) matches Err(e) ==> e.line() == line,
{
}

/// A line yields no record exactly when it is blank (empty or whitespace
/// only); a blank line is never an error.
pub proof fn lemma_blank_lines_yield_nothing(line: nat, text: Seq<char>)
    ensures
        (line_result(line, text) == Ok::<Option<RecordView>, ErrorView>(None)) <==> trim_seq(text).len() == 0,
{
}

/// Every record the parser yields has non-empty identifiers: a node its
/// `id`, an edge its `source`, `target` and `label`.
pub proof fn lemma_records_have_identifiers(line: nat, text: Seq<char>)
    ensures
        line_result(line, text) matches Ok(Some(RecordView::Node(n))) ==> n.id.len() > 0,
        line_result(line, text) matches Ok(Some(RecordView::Edge(e))) ==> e.source.len() > 0 && e.target.len() > 0
            && e.label.len() > 0,
{
}

/// An unknown `type` is reported as it is written: a line whose object has a
/// string `type` other than `node`, `edge` and `relationship` is an
/// `UnknownType` error carrying that whole string, whatever else the line
/// holds.
pub proof fn lemma_unknown_type_reported_as_written(line: nat, text: Seq<char>, fields: Seq<FieldView>, kind: Seq<char>)
    requires
        trim_seq(text).len() > 0,
        json_object_fields(trim_seq(text)) == Ok::<Seq<FieldView>, Seq<char>>(fields),
        lookup(fields, "type"@) matches Some(tag) && tag.value == AtomView::Str(kind),
        kind != "node"@,
        kind != "edge"@,
        kind != "relationship"@,
    ensures
        line_result(line, text) == Err::<Option<RecordView>, ErrorView>(ErrorView::UnknownType { line, kind }),
{
}

/// The record's property names are strictly ascending, so within one
/// record no two properties share a name.
pub open spec fn record_names_ascending(record: RecordView) -> bool {
    match record {
        RecordView::Node(node) => names_ascending(node.properties),
        RecordView::Edge(edge) => names_ascending(edge.properties),
    }
}

/// Two lines whose objects are the same edge in its two spellings (see
/// `lemma_edge_spellings_agree`) parse alike on the same line number.
pub proof fn lemma_edge_lines_agree(
    line: nat,
    plain_text: Seq<char>,
    apoc_text: Seq<char>,
    plain: Seq<FieldView>,
    apoc: Seq<FieldView>,
    source: FieldView,
    target: FieldView,
    start: FieldView,
    end: FieldView,
    start_members: Seq<FieldView>,
    end_members: Seq<FieldView>,
)
    requires
        trim_seq(plain_text).len() > 0,
        trim_seq(apoc_text).len() > 0,
        json_object_fields(trim_seq(plain_text)) == Ok::<Seq<FieldView>, Seq<char>>(plain),
        json_object_fields(trim_seq(apoc_text)) == Ok::<Seq<FieldView>, Seq<char>>(apoc),
        lookup(plain, "type"@) matches Some(t) && t.value == AtomView::Str("edge"@),
        lookup(apoc, "type"@) matches Some(t) && t.value == AtomView::Str("relationship"@),
        lookup(plain, "id"@) == lookup(apoc, "id"@),
        lookup(plain, "label"@) == lookup(apoc, "label"@),
        lookup(plain, "properties"@) == lookup(apoc, "properties"@),
        lookup(plain, "source"@) == Some(source),
        lookup(plain, "target"@) == Some(target),
        lookup(plain, "start"@).is_none(),
        lookup(plain, "end"@).is_none(),
        lookup(apoc, "source"@).is_none(),
        lookup(apoc, "target"@).is_none(),
        lookup(apoc, "start"@) == Some(start),
        lookup(apoc, "end"@) == Some(end),
        start.value == AtomView::Object,
        end.value == AtomView::Object,
        json_object_fields(start.raw) == Ok::<Seq<FieldView>, Seq<char>>(start_members),
        json_object_fields(end.raw) == Ok::<Seq<FieldView>, Seq<char>>(end_members),
        lookup(start_members, "id"@) matches Some(i) && i.value == source.value && i.raw == source.raw,
        lookup(end_members, "id"@) matches Some(i) && i.value == target.value && i.raw == target.raw,
        !(source.value is Object),
        !(target.value is Object),
    ensures
        line_result(line, plain_text) == line_result(line, apoc_text),
{
    lemma_edge_spellings_agree(trim_seq(plain_text), trim_seq(apoc_text), plain, apoc, source, target, start, end, start_members, end_members);
}

/// `e` with its line number increased by `k`.
pub open spec fn error_shifted(e: ErrorView, k: nat) -> ErrorView {
    match e {
        ErrorView::Json { line, detail } => ErrorView::Json { line: line + k, detail },
        ErrorView::UnknownType { line, kind } => ErrorView::UnknownType { line: line + k, kind },
        ErrorView::EmptyField { line, field } => ErrorView::EmptyField { line: line + k, field },
    }
}

/// A line's outcome does not depend on its number, but for the number its
/// error carries.
pub proof fn lemma_line_result_shift(line: nat, k: nat, text: Seq<char>)
    ensures
        line_result(line + k, text) == match line_result(line, text) {
            Err(e) => Err(error_shifted(e, k)),
            Ok(r) => Ok::<Option<RecordView>, ErrorView>(r),
        },
{
}

/// The view of what `parse_line` returns.
pub open spec fn line_outcome(res: Result<Option<PgJsonlRecord>, PgJsonlError>) -> Result<Option<RecordView>, ErrorView> {
    match res {
        Ok(Some(record)) => Ok(Some(record@)),
        Ok(None) => Ok(None),
        Err(error) => Err(error@),
    }
}

/// Stateful line-by-line PG-JSONL parser. Memory is bounded by one
/// line: nothing is retained between calls except the line counter.
#[derive(Debug)]
pub struct PgJsonlStreamParser {
    line: usize,
}

impl View for PgJsonlStreamParser {
    /// The number of lines parsed so far.
    type V = nat;

    closed spec fn view(&self) -> nat {
        self.line as nat
    }
}

impl Default for PgJsonlStreamParser {
    fn default() -> (res: Self)
        ensures
            res@ == 0,
    {
        PgJsonlStreamParser { line: 0 }
    }
}

impl PgJsonlStreamParser {
    /// Create a new streaming parser.
    #[must_use]
    pub fn new() -> (res: Self)
        ensures
            res@ == 0,
    {
        Self::default()
    }

    /// Parse one physical line. Blank lines yield `Ok(None)`.
    ///
    /// # Errors
    ///
    /// Returns [`PgJsonlError`] when the line is not a valid node or
    /// edge record.
    pub fn parse_line(&mut self, line: &str) -> (res: Result<Option<PgJsonlRecord>, PgJsonlError>)
        requires
            old(self)@ < usize::MAX,
        ensures
            final(self)@ == old(self)@ + 1,
            line_outcome(res) == line_result(final(self)@, line@),
            res matches Ok(Some(record)) ==> record_names_ascending(record@),
    {
        self.line = self.line + 1;
        let trimmed = trim(line);
        if trimmed.is_empty() {
            return Ok(None);
        }
        let parsed = match line_from(trimmed) {
            Ok(parsed) => parsed,
            Err(error) => return Err(self.json_error(error)),
        };
        let record = match parsed {
            Line::Node(node) => PgJsonlRecord::Node(self.node(node)?),
            Line::Edge(edge) => PgJsonlRecord::Edge(self.edge(edge)?),
        };
        Ok(Some(record))
    }

    /// The error a line's shape failure is reported as.
    fn json_error(&self, error: WireError) -> (res: PgJsonlError)
        ensures
            res@ == wire_error_at(self@, error@),
    {
        match error {
            WireError::UnknownVariant(kind) => PgJsonlError::UnknownType { line: self.line, kind },
            WireError::Json(detail) => PgJsonlError::Json { line: self.line, detail },
        }
    }

    /// `value` unchanged when it is not empty, else the error that `field`
    /// is empty on the current line.
    pub fn non_empty(&self, value: String, field: &'static str) -> (res: Result<String, PgJsonlError>)
        ensures
            match res {
                Ok(v) => value@.len() != 0 && v == value,
                Err(e) => value@.len() == 0 && e@ == (ErrorView::EmptyField { line: self@, field: field@ }),
            },
    {
        if value.as_str().is_empty() {
            return Err(PgJsonlError::EmptyField { line: self.line, field });
        }
        Ok(value)
    }

    fn node(&self, node: NodeLine) -> (res: Result<Node, PgJsonlError>)
        ensures
            match res {
                Ok(n) => node_at(self@, node@) == Ok::<NodeView, ErrorView>(n@) && (keys_ascending(node@.properties)
                    ==> names_ascending(n@.properties)),
                Err(e) => node_at(self@, node@) == Err::<NodeView, ErrorView>(e@),
            },
    {
        let properties = properties_from(&node.properties);
        Ok(Node { id: self.non_empty(node.id, "id")?, labels: node.labels, properties })
    }

    fn edge(&self, edge: EdgeLine) -> (res: Result<Edge, PgJsonlError>)
        ensures
            match res {
                Ok(e) => edge_at(self@, edge@) == Ok::<EdgeView, ErrorView>(e@) && (keys_ascending(edge@.properties)
                    ==> names_ascending(e@.properties)),
                Err(e) => edge_at(self@, edge@) == Err::<EdgeView, ErrorView>(e@),
            },
    {
        let properties = properties_from(&edge.properties);
        Ok(
            Edge {
                id: edge.id,
                source: self.non_empty(edge.source, "source")?,
                target: self.non_empty(edge.target, "target")?,
                label: self.non_empty(edge.label, "label")?,
                properties,
            },
        )
    }
}


/// The properties a record carries, read against the members of the line's
/// object: with no `properties` member there are none; else that member
/// reads as a map, and there is exactly one property for each of its
/// non-`null` members, in member order, the one that member makes.
pub open spec fn properties_read_from(fields: Seq<FieldView>, properties: Seq<PropertyView>) -> bool {
    match lookup(fields, "properties"@) {
        None => properties.len() == 0,
        Some(member) => json_map_fields(member.raw) matches Ok(members) && properties.len() == non_null_members(
            members,
        ).len() && forall|k: int|
            0 <= k < properties.len() ==> property_of(#[trigger] non_null_members(members)[k]) == Some(properties[k]),
    }
}

/// A node record keeps everything its line gives: its `id` is the line's,
/// its labels are exactly the strings of the line's `labels` member, all
/// of them and in order (none when the member is absent), and its
/// properties are those of every non-`null` member of the line's
/// `properties` object.
pub proof fn lemma_node_record_keeps_its_line(line: nat, text: Seq<char>)
    ensures
        line_result(line, text) matches Ok(Some(RecordView::Node(node))) ==> (json_object_fields(trim_seq(text)) matches Ok(
            fields,
        ) && node_id_of(fields) == Ok::<Option<Seq<char>>, Seq<char>>(Some(node.id)) && (match lookup(fields, "labels"@) {
            None => node.labels.len() == 0,
            Some(member) => json_string_list(member.raw) == Ok::<Seq<Seq<char>>, Seq<char>>(node.labels),
        }) && properties_read_from(fields, node.properties)),
{
    let trimmed = trim_seq(text);
    if let Ok(fields) = json_object_fields(trimmed) {
        if let Some(member) = lookup(fields, "properties"@) {
            if let Ok(members) = json_map_fields(member.raw) {
                lemma_one_property_per_non_null_member(members);
            }
        }
    }
}

/// An edge record keeps what its line gives: its endpoints are those the
/// line writes under `source` / `start` and `target` / `end`, not swapped,
/// its label is the line's `label` string, its `id` the line's, and its
/// properties are those of every non-`null` member of the line's
/// `properties` object, in member order.
pub proof fn lemma_edge_record_keeps_its_line(line: nat, text: Seq<char>)
    ensures
        line_result(line, text) matches Ok(Some(RecordView::Edge(edge))) ==> (json_object_fields(trim_seq(text)) matches Ok(
            fields,
        ) && endpoint_of(fields, "source"@, "start"@) == Ok::<Option<Seq<char>>, Seq<char>>(Some(edge.source))
            && endpoint_of(fields, "target"@, "end"@) == Ok::<Option<Seq<char>>, Seq<char>>(Some(edge.target))
            && (lookup(fields, "label"@) matches Some(member) && json_string(member.raw) == Ok::<Seq<char>, Seq<char>>(edge.label))
            && edge_id_of(fields) == Ok::<Option<Seq<char>>, Seq<char>>(edge.id)
            && properties_read_from(fields, edge.properties)),
{
    let trimmed = trim_seq(text);
    if let Ok(fields) = json_object_fields(trimmed) {
        if let Some(member) = lookup(fields, "properties"@) {
            if let Ok(members) = json_map_fields(member.raw) {
                lemma_one_property_per_non_null_member(members);
            }
        }
    }
}

} // verus!
