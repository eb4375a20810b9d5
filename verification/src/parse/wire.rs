//! The shapes of the two accepted line dialects.
//!
//! * the plain dialect: `{"type":"node","id":..,"labels":[..],"properties":{..}}`
//!   and `{"type":"edge","source":..,"target":..,"label":..,"properties":{..}}`;
//! * Neo4j APOC `apoc.export.json`: `{"type":"relationship","id":..,"label":..,
//!   "start":{"id":..,"labels":[..]},"end":{"id":..},"properties":{..}}`.
//!
//! Both are accepted on every line; a file may mix them. A line is a JSON
//! object; its members are read by `serde_json` (see `crate::json`), and the
//! rules here decide what record, or what failure, the members make.
use crate::json::{
    AtomView, FieldView, JsonAtom, JsonField, fields_view, json_map_fields, json_object_fields, json_string,
    json_string_list, keys_ascending, read_json_map, read_json_object, read_json_string, read_json_string_list,
};
use crate::error::{decimal, decimal_string, decimal_successor};
use crate::types::{opt_str_view, strings_view};
use vstd::utf8::encode_utf8;
use vstd::prelude::*;

verus! {

/// Why a non-blank line is not a record of a known shape.
pub enum WireError {
    /// The line is not a JSON object of a known record shape.
    Json(String),
    /// The `type` names no record kind; the kind it is reported under.
    UnknownVariant(String),
}

/// The mathematical content of a [`WireError`].
pub enum WireErrorView {
    Json(Seq<char>),
    UnknownVariant(Seq<char>),
}

impl View for WireError {
    type V = WireErrorView;

    open spec fn view(&self) -> WireErrorView {
        match self {
            WireError::Json(detail) => WireErrorView::Json(detail@),
            WireError::UnknownVariant(kind) => WireErrorView::UnknownVariant(kind@),
        }
    }
}

/// The members of a `node` line, before its identifier is checked.
pub struct NodeLine {
    pub id: String,
    pub labels: Vec<String>,
    /// The members of its `properties` object.
    pub properties: Vec<JsonField>,
}

/// The members of an `edge` / `relationship` line, before its identifiers
/// are checked.
pub struct EdgeLine {
    pub id: Option<String>,
    pub source: String,
    pub target: String,
    pub label: String,
    /// The members of its `properties` object.
    pub properties: Vec<JsonField>,
}

/// The shape of one line.
pub enum Line {
    Node(NodeLine),
    Edge(EdgeLine),
}

/// The mathematical content of a [`NodeLine`].
pub struct NodeLineView {
    pub id: Seq<char>,
    pub labels: Seq<Seq<char>>,
    pub properties: Seq<FieldView>,
}

/// The mathematical content of an [`EdgeLine`].
pub struct EdgeLineView {
    pub id: Option<Seq<char>>,
    pub source: Seq<char>,
    pub target: Seq<char>,
    pub label: Seq<char>,
    pub properties: Seq<FieldView>,
}

/// The mathematical content of a [`Line`].
pub enum LineView {
    Node(NodeLineView),
    Edge(EdgeLineView),
}

impl View for NodeLine {
    type V = NodeLineView;

    open spec fn view(&self) -> NodeLineView {
        NodeLineView { id: self.id@, labels: strings_view(self.labels@), properties: fields_view(self.properties@) }
    }
}

impl View for EdgeLine {
    type V = EdgeLineView;

    open spec fn view(&self) -> EdgeLineView {
        EdgeLineView {
            id: opt_str_view(self.id),
            source: self.source@,
            target: self.target@,
            label: self.label@,
            properties: fields_view(self.properties@),
        }
    }
}

impl View for Line {
    type V = LineView;

    open spec fn view(&self) -> LineView {
        match self {
            Line::Node(node) => LineView::Node(node@),
            Line::Edge(edge) => LineView::Edge(edge@),
        }
    }
}

/// The members of a line's `properties` object come with strictly
/// ascending keys.
pub open spec fn line_keys_ascending(line: LineView) -> bool {
    match line {
        LineView::Node(node) => keys_ascending(node.properties),
        LineView::Edge(edge) => keys_ascending(edge.properties),
    }
}

/// The first member of `fields` whose key is `key`.
pub open spec fn lookup(fields: Seq<FieldView>, key: Seq<char>) -> Option<FieldView>
    decreases fields.len(),
{
    if fields.len() == 0 {
        None
    } else if fields[0].key == key {
        Some(fields[0])
    } else {
        lookup(fields.drop_first(), key)
    }
}

/// Detail of a required member that is absent.
pub open spec fn missing_field(name: Seq<char>) -> Seq<char> {
    "missing field `"@ + name + "`"@
}

/// Detail of a member given under both of its names.
pub open spec fn duplicate_field(name: Seq<char>) -> Seq<char> {
    "duplicate field `"@ + name + "`"@
}

/// Detail of a value that fits none of the forms a member allows.
pub open spec fn no_variant(name: Seq<char>) -> Seq<char> {
    "data did not match any variant of untagged enum "@ + name
}

/// Detail of a `type` that is not a string.
pub open spec fn expected_identifier() -> Seq<char> {
    "invalid type, expected variant identifier"@
}

/// An identifier: a JSON string as it is, a JSON number as its token is
/// written.
pub open spec fn id_text(field: FieldView) -> Option<Seq<char>> {
    match field.value {
        AtomView::Str(s) => Some(s),
        AtomView::Number(_, _) => Some(field.raw),
        _ => None,
    }
}

/// An endpoint: a bare identifier, or an object whose `id` is one.
pub open spec fn endpoint_text(field: FieldView) -> Option<Seq<char>> {
    match field.value {
        AtomView::Object => match json_object_fields(field.raw) {
            Ok(members) => match lookup(members, "id"@) {
                Some(id) => id_text(id),
                None => None,
            },
            Err(_) => None,
        },
        _ => id_text(field),
    }
}

/// The `labels` member: absent means none.
pub open spec fn labels_of(fields: Seq<FieldView>) -> Result<Seq<Seq<char>>, Seq<char>> {
    match lookup(fields, "labels"@) {
        None => Ok(Seq::empty()),
        Some(f) => json_string_list(f.raw),
    }
}

/// The members of the `properties` member: absent means none.
pub open spec fn properties_members(fields: Seq<FieldView>) -> Result<Seq<FieldView>, Seq<char>> {
    match lookup(fields, "properties"@) {
        None => Ok(Seq::empty()),
        Some(f) => json_map_fields(f.raw),
    }
}

/// The `id` of a node when it is given: a value that is no identifier is
/// an error, an absent one is `None`.
pub open spec fn node_id_of(fields: Seq<FieldView>) -> Result<Option<Seq<char>>, Seq<char>> {
    match lookup(fields, "id"@) {
        None => Ok(None),
        Some(f) => match id_text(f) {
            None => Err(no_variant("Id"@)),
            Some(id) => Ok(Some(id)),
        },
    }
}

/// The shape of a `node` line. Values of the wrong form are reported
/// before an absent `id`, each kind of fault in the order of the members'
/// declaration: `id`, `labels`, `properties`.
pub open spec fn node_line_of(fields: Seq<FieldView>) -> Result<NodeLineView, Seq<char>> {
    match node_id_of(fields) {
        Err(message) => Err(message),
        Ok(id) => match labels_of(fields) {
            Err(message) => Err(message),
            Ok(labels) => match properties_members(fields) {
                Err(message) => Err(message),
                Ok(properties) => match id {
                    None => Err(missing_field("id"@)),
                    Some(id) => Ok(NodeLineView { id, labels, properties }),
                },
            },
        },
    }
}

/// The optional `id` of an edge: absent or `null` means none.
pub open spec fn edge_id_of(fields: Seq<FieldView>) -> Result<Option<Seq<char>>, Seq<char>> {
    match lookup(fields, "id"@) {
        None => Ok(None),
        Some(f) => match f.value {
            AtomView::Null => Ok(None),
            _ => match id_text(f) {
                Some(t) => Ok(Some(t)),
                None => Err(no_variant("Id"@)),
            },
        },
    }
}

/// An endpoint member written under `name` or under its alias, `None`
/// when it is absent.
pub open spec fn endpoint_of(fields: Seq<FieldView>, name: Seq<char>, alias: Seq<char>) -> Result<Option<Seq<char>>, Seq<char>> {
    match (lookup(fields, name), lookup(fields, alias)) {
        (Some(_), Some(_)) => Err(duplicate_field(name)),
        (None, None) => Ok(None),
        (Some(f), None) => match endpoint_text(f) {
            Some(t) => Ok(Some(t)),
            None => Err(no_variant("Endpoint"@)),
        },
        (None, Some(f)) => match endpoint_text(f) {
            Some(t) => Ok(Some(t)),
            None => Err(no_variant("Endpoint"@)),
        },
    }
}

/// The `label` of an edge: a string, `None` when it is absent.
pub open spec fn label_of(fields: Seq<FieldView>) -> Result<Option<Seq<char>>, Seq<char>> {
    match lookup(fields, "label"@) {
        None => Ok(None),
        Some(f) => match json_string(f.raw) {
            Ok(s) => Ok(Some(s)),
            Err(message) => Err(message),
        },
    }
}

/// The shape of an `edge` / `relationship` line. Values of the wrong form
/// are reported before absent members, each kind of fault in the order of
/// the members' declaration: `id`, `source`, `target`, `label`,
/// `properties`.
pub open spec fn edge_line_of(fields: Seq<FieldView>) -> Result<EdgeLineView, Seq<char>> {
    match edge_id_of(fields) {
        Err(message) => Err(message),
        Ok(id) => match endpoint_of(fields, "source"@, "start"@) {
            Err(message) => Err(message),
            Ok(source) => match endpoint_of(fields, "target"@, "end"@) {
                Err(message) => Err(message),
                Ok(target) => match label_of(fields) {
                    Err(message) => Err(message),
                    Ok(label) => match properties_members(fields) {
                        Err(message) => Err(message),
                        Ok(properties) => match (source, target, label) {
                            (None, _, _) => Err(missing_field("source"@)),
                            (Some(_), None, _) => Err(missing_field("target"@)),
                            (Some(_), Some(_), None) => Err(missing_field("label"@)),
                            (Some(source), Some(target), Some(label)) => Ok(
                                EdgeLineView { id, source, target, label, properties },
                            ),
                        },
                    },
                },
            },
        },
    }
}

/// Identifiers are kept as text: a node's `id` is the member's string, or
/// its number's token as written in the line.
pub proof fn lemma_node_id_kept_as_text(fields: Seq<FieldView>)
    ensures
        node_line_of(fields) matches Ok(node) ==> (lookup(fields, "id"@) matches Some(f) && (f.value matches AtomView::Str(s) ==> node.id == s) && (f.value is Number ==> node.id == f.raw)),
{
}

/// The line breaks among `bytes`, and the bytes after the last one.
pub open spec fn reader_position(bytes: Seq<u8>) -> (nat, nat)
    decreases bytes.len(),
{
    if bytes.len() == 0 {
        (0, 0)
    } else {
        let (breaks, column) = reader_position(bytes.drop_last());
        if bytes.last() == 10u8 {
            (breaks + 1, 0)
        } else {
            (breaks, column + 1)
        }
    }
}

/// Where `serde_json` places a fault that it finds once it has read all of
/// `text`: ` at line L column C`, with L counted from one and C the UTF-8
/// bytes read on line L.
pub open spec fn end_position(text: Seq<char>) -> Seq<char> {
    let (breaks, column) = reader_position(encode_utf8(text));
    " at line "@ + decimal(breaks + 1) + " column "@ + decimal(column)
}

/// The shape that the members of the object of the line `text` make, or
/// why they make none. An absent `type` is found at the end of the
/// object, and its detail says where that is.
pub open spec fn line_of_fields(fields: Seq<FieldView>, text: Seq<char>) -> Result<LineView, WireErrorView> {
    match lookup(fields, "type"@) {
        None => Err(WireErrorView::Json(missing_field("type"@) + end_position(text))),
        Some(tag) => match tag.value {
            AtomView::Str(kind) => if kind == "node"@ {
                match node_line_of(fields) {
                    Ok(node) => Ok(LineView::Node(node)),
                    Err(message) => Err(WireErrorView::Json(message)),
                }
            } else if kind == "edge"@ || kind == "relationship"@ {
                match edge_line_of(fields) {
                    Ok(edge) => Ok(LineView::Edge(edge)),
                    Err(message) => Err(WireErrorView::Json(message)),
                }
            } else {
                Err(WireErrorView::UnknownVariant(kind))
            },
            _ => Err(WireErrorView::Json(expected_identifier())),
        },
    }
}

/// The plain and the Neo4j APOC spelling of an edge make the same edge, or
/// fail alike: `{"type":"edge", "source": S, "target": T, ..}` and
/// `{"type":"relationship", "start": {"id": S}, "end": {"id": T}, ..}` with
/// the same `id`, `label` and `properties`, given that `serde_json` reads
/// the `start` and `end` objects back with `id` members holding `S` and
/// `T`.
pub proof fn lemma_edge_spellings_agree(
    plain_text: Seq<char>,
    apoc_text: Seq<char>,
    plain: Seq<FieldView>,
    apoc: Seq<FieldView>,
    source: FieldView,
    target: FieldView,
    start: FieldView,
    end: FieldView,
    start_members: Seq<FieldView>,
    end_members: Seq<FieldView>,
)
    requires
        lookup(plain, "type"@) matches Some(t) && t.value == AtomView::Str("edge"@),
        lookup(apoc, "type"@) matches Some(t) && t.value == AtomView::Str("relationship"@),
        lookup(plain, "id"@) == lookup(apoc, "id"@),
        lookup(plain, "label"@) == lookup(apoc, "label"@),
        lookup(plain, "properties"@) == lookup(apoc, "properties"@),
        lookup(plain, "source"@) == Some(source),
        lookup(plain, "target"@) == Some(target),
        lookup(plain, "start"@).is_none(),
        lookup(plain, "end"@).is_none(),
        lookup(apoc, "source"@).is_none(),
        lookup(apoc, "target"@).is_none(),
        lookup(apoc, "start"@) == Some(start),
        lookup(apoc, "end"@) == Some(end),
        start.value == AtomView::Object,
        end.value == AtomView::Object,
        json_object_fields(start.raw) == Ok::<Seq<FieldView>, Seq<char>>(start_members),
        json_object_fields(end.raw) == Ok::<Seq<FieldView>, Seq<char>>(end_members),
        lookup(start_members, "id"@) matches Some(i) && i.value == source.value && i.raw == source.raw,
        lookup(end_members, "id"@) matches Some(i) && i.value == target.value && i.raw == target.raw,
        !(source.value is Object),
        !(target.value is Object),
    ensures
        line_of_fields(plain, plain_text) == line_of_fields(apoc, apoc_text),
{
    reveal_strlit("edge");
    reveal_strlit("relationship");
    reveal_strlit("node");
    assert(endpoint_of(plain, "source"@, "start"@) == endpoint_of(apoc, "source"@, "start"@));
    assert(endpoint_of(plain, "target"@, "end"@) == endpoint_of(apoc, "target"@, "end"@));
    assert(edge_line_of(plain) == edge_line_of(apoc));
    assert("edge"@ != "node"@) by {
        assert("edge"@[0] != "node"@[0]);
    }
    assert("relationship"@ != "node"@) by {
        assert("relationship"@.len() != "node"@.len());
    }
}

/// The shape of a non-blank (trimmed) line, or why it has none.
pub open spec fn line_of(text: Seq<char>) -> Result<LineView, WireErrorView> {
    match json_object_fields(text) {
        Err(message) => Err(WireErrorView::Json(message)),
        Ok(fields) => line_of_fields(fields, text),
    }
}

/// Index of the first member whose key is `key`.
fn find_field(fields: &Vec<JsonField>, key: &str) -> (res: Option<usize>)
    ensures
        match res {
            Some(i) => i < fields@.len() && lookup(fields_view(fields@), key@) == Some(fields@[i as int]@),
            None => lookup(fields_view(fields@), key@).is_none(),
        },
{
    let wanted = String::from_str(key);
    let ghost all = fields_view(fields@);
    let mut i: usize = 0;
    assert(all.skip(0) =~= all);
    while i < fields.len()
        invariant
            i <= fields@.len(),
            wanted@ == key@,
            all == fields_view(fields@),
            lookup(all, key@) == lookup(all.skip(i as int), key@),
        decreases fields.len() - i,
    {
        assert(all.skip(i as int)[0] == fields@[i as int]@);
        if fields[i].key == wanted {
            return Some(i);
        }
        assert(all.skip(i as int).drop_first() =~= all.skip(i + 1));
        i = i + 1;
    }
    assert(all.skip(i as int).len() == 0);
    None
}

/// The member of `fields` under `key`.
fn field_at<'a>(fields: &'a Vec<JsonField>, key: &str) -> (res: Option<&'a JsonField>)
    ensures
        match res {
            Some(f) => lookup(fields_view(fields@), key@) == Some(f@),
            None => lookup(fields_view(fields@), key@).is_none(),
        },
{
    match find_field(fields, key) {
        Some(i) => Some(&fields[i]),
        None => None,
    }
}

fn missing_field_detail(name: &str) -> (res: String)
    ensures
        res@ == missing_field(name@),
{
    let mut res = String::from_str("missing field `");
    res.append(name);
    res.append("`");
    res
}

fn duplicate_field_detail(name: &str) -> (res: String)
    ensures
        res@ == duplicate_field(name@),
{
    let mut res = String::from_str("duplicate field `");
    res.append(name);
    res.append("`");
    res
}

fn no_variant_detail(name: &str) -> (res: String)
    ensures
        res@ == no_variant(name@),
{
    let mut res = String::from_str("data did not match any variant of untagged enum ");
    res.append(name);
    res
}

/// An identifier's text.
fn id_from(field: &JsonField) -> (res: Option<String>)
    ensures
        opt_str_view(res) == id_text(field@),
{
    match &field.value {
        JsonAtom::Str(s) => Some(s.clone()),
        JsonAtom::Number(_, _) => Some(field.raw.clone()),
        _ => None,
    }
}

/// An endpoint's identifier.
fn endpoint_from(field: &JsonField) -> (res: Option<String>)
    ensures
        opt_str_view(res) == endpoint_text(field@),
{
    match &field.value {
        JsonAtom::Object => match read_json_object(field.raw.as_str()) {
            Ok(members) => match field_at(&members, "id") {
                Some(id) => id_from(id),
                None => None,
            },
            Err(_) => None,
        },
        _ => id_from(field),
    }
}

/// The `labels` member of a record.
fn labels_from(fields: &Vec<JsonField>) -> (res: Result<Vec<String>, String>)
    ensures
        match res {
            Ok(labels) => labels_of(fields_view(fields@)) == Ok::<Seq<Seq<char>>, Seq<char>>(strings_view(labels@)),
            Err(message) => labels_of(fields_view(fields@)) == Err::<Seq<Seq<char>>, Seq<char>>(message@),
        },
{
    match field_at(fields, "labels") {
        None => {
            let labels: Vec<String> = Vec::new();
            assert(strings_view(labels@) =~= Seq::<Seq<char>>::empty());
            Ok(labels)
        },
        Some(f) => read_json_string_list(f.raw.as_str()),
    }
}

/// The members of the `properties` member of a record.
fn properties_members_from(fields: &Vec<JsonField>) -> (res: Result<Vec<JsonField>, String>)
    ensures
        match res {
            Ok(members) => properties_members(fields_view(fields@)) == Ok::<Seq<FieldView>, Seq<char>>(fields_view(members@))
                && keys_ascending(fields_view(members@)),
            Err(message) => properties_members(fields_view(fields@)) == Err::<Seq<FieldView>, Seq<char>>(message@),
        },
{
    match field_at(fields, "properties") {
        None => {
            let members: Vec<JsonField> = Vec::new();
            assert(fields_view(members@) =~= Seq::<FieldView>::empty());
            Ok(members)
        },
        Some(f) => read_json_map(f.raw.as_str()),
    }
}

/// The shape of a `node` line.
fn node_line_from(fields: &Vec<JsonField>) -> (res: Result<NodeLine, String>)
    ensures
        match res {
            Ok(node) => node_line_of(fields_view(fields@)) == Ok::<NodeLineView, Seq<char>>(node@) && keys_ascending(node@.properties),
            Err(message) => node_line_of(fields_view(fields@)) == Err::<NodeLineView, Seq<char>>(message@),
        },
{
    let id = match field_at(fields, "id") {
        None => None,
        Some(f) => match id_from(f) {
            None => return Err(no_variant_detail("Id")),
            Some(id) => Some(id),
        },
    };
    let labels = labels_from(fields)?;
    let properties = properties_members_from(fields)?;
    match id {
        None => Err(missing_field_detail("id")),
        Some(id) => Ok(NodeLine { id, labels, properties }),
    }
}

/// The optional `id` of an edge.
fn edge_id_from(fields: &Vec<JsonField>) -> (res: Result<Option<String>, String>)
    ensures
        match res {
            Ok(id) => edge_id_of(fields_view(fields@)) == Ok::<Option<Seq<char>>, Seq<char>>(opt_str_view(id)),
            Err(message) => edge_id_of(fields_view(fields@)) == Err::<Option<Seq<char>>, Seq<char>>(message@),
        },
{
    match field_at(fields, "id") {
        None => Ok(None),
        Some(f) => match &f.value {
            JsonAtom::Null => Ok(None),
            _ => match id_from(f) {
                Some(t) => Ok(Some(t)),
                None => Err(no_variant_detail("Id")),
            },
        },
    }
}

/// An endpoint member written under `name` or under `alias`.
fn endpoint_member(fields: &Vec<JsonField>, name: &str, alias: &str) -> (res: Result<Option<String>, String>)
    ensures
        match res {
            Ok(t) => endpoint_of(fields_view(fields@), name@, alias@) == Ok::<Option<Seq<char>>, Seq<char>>(opt_str_view(t)),
            Err(message) => endpoint_of(fields_view(fields@), name@, alias@) == Err::<Option<Seq<char>>, Seq<char>>(message@),
        },
{
    let found = match (field_at(fields, name), field_at(fields, alias)) {
        (Some(_), Some(_)) => return Err(duplicate_field_detail(name)),
        (None, None) => return Ok(None),
        (Some(f), None) => f,
        (None, Some(f)) => f,
    };
    match endpoint_from(found) {
        Some(t) => Ok(Some(t)),
        None => Err(no_variant_detail("Endpoint")),
    }
}

/// The `label` of an edge.
fn label_from(fields: &Vec<JsonField>) -> (res: Result<Option<String>, String>)
    ensures
        match res {
            Ok(t) => label_of(fields_view(fields@)) == Ok::<Option<Seq<char>>, Seq<char>>(opt_str_view(t)),
            Err(message) => label_of(fields_view(fields@)) == Err::<Option<Seq<char>>, Seq<char>>(message@),
        },
{
    match field_at(fields, "label") {
        None => Ok(None),
        Some(f) => match read_json_string(f.raw.as_str()) {
            Ok(s) => Ok(Some(s)),
            Err(message) => Err(message),
        },
    }
}

/// The shape of an `edge` / `relationship` line.
fn edge_line_from(fields: &Vec<JsonField>) -> (res: Result<EdgeLine, String>)
    ensures
        match res {
            Ok(edge) => edge_line_of(fields_view(fields@)) == Ok::<EdgeLineView, Seq<char>>(edge@) && keys_ascending(edge@.properties),
            Err(message) => edge_line_of(fields_view(fields@)) == Err::<EdgeLineView, Seq<char>>(message@),
        },
{
    let id = edge_id_from(fields)?;
    let source = endpoint_member(fields, "source", "start")?;
    let target = endpoint_member(fields, "target", "end")?;
    let label = label_from(fields)?;
    let properties = properties_members_from(fields)?;
    match (source, target, label) {
        (None, _, _) => Err(missing_field_detail("source")),
        (Some(_), None, _) => Err(missing_field_detail("target")),
        (Some(_), Some(_), None) => Err(missing_field_detail("label")),
        (Some(source), Some(target), Some(label)) => Ok(EdgeLine { id, source, target, label, properties }),
    }
}

/// Where `serde_json` places a fault found at the end of `text`.
fn end_position_text(text: &str) -> (res: String)
    ensures
        res@ == end_position(text@),
{
    let bytes = text.as_bytes_vec();
    let mut breaks: usize = 0;
    let mut column: usize = 0;
    let mut i: usize = 0;
    assert(bytes@.take(0) =~= Seq::<u8>::empty());
    while i < bytes.len()
        invariant
            i <= bytes@.len(),
            breaks <= i,
            column <= i,
            reader_position(bytes@.take(i as int)) == (breaks as nat, column as nat),
        decreases bytes.len() - i,
    {
        assert(bytes@.take(i + 1).drop_last() =~= bytes@.take(i as int));
        if bytes[i] == 10u8 {
            breaks = breaks + 1;
            column = 0;
        } else {
            column = column + 1;
        }
        i = i + 1;
    }
    assert(bytes@.take(bytes@.len() as int) =~= bytes@);
    let mut res = String::from_str(" at line ");
    let line = decimal_successor(breaks);
    res.append(line.as_str());
    res.append(" column ");
    let col = decimal_string(column);
    res.append(col.as_str());
    res
}

/// The shape that the members of the object of the line `text` make, or
/// why they make none.
pub fn line_from_fields(fields: &Vec<JsonField>, text: &str) -> (res: Result<Line, WireError>)
    ensures
        match res {
            Ok(line) => line_of_fields(fields_view(fields@), text@) == Ok::<LineView, WireErrorView>(line@) && line_keys_ascending(line@),
            Err(error) => line_of_fields(fields_view(fields@), text@) == Err::<LineView, WireErrorView>(error@),
        },
{
    let tag = match field_at(fields, "type") {
        None => {
            let mut detail = missing_field_detail("type");
            let at = end_position_text(text);
            detail.append(at.as_str());
            return Err(WireError::Json(detail));
        },
        Some(tag) => tag,
    };
    match &tag.value {
        JsonAtom::Str(kind) => {
            if *kind == String::from_str("node") {
                match node_line_from(fields) {
                    Ok(node) => Ok(Line::Node(node)),
                    Err(message) => Err(WireError::Json(message)),
                }
            } else if *kind == String::from_str("edge") || *kind == String::from_str("relationship") {
                match edge_line_from(fields) {
                    Ok(edge) => Ok(Line::Edge(edge)),
                    Err(message) => Err(WireError::Json(message)),
                }
            } else {
                Err(WireError::UnknownVariant(kind.clone()))
            }
        },
        _ => Err(WireError::Json(String::from_str("invalid type, expected variant identifier"))),
    }
}

/// The shape of a non-blank (trimmed) line, or why it has none.
pub fn line_from(text: &str) -> (res: Result<Line, WireError>)
    ensures
        match res {
            Ok(line) => line_of(text@) == Ok::<LineView, WireErrorView>(line@) && line_keys_ascending(line@),
            Err(error) => line_of(text@) == Err::<LineView, WireErrorView>(error@),
        },
{
    match read_json_object(text) {
        Err(message) => Err(WireError::Json(message)),
        Ok(fields) => line_from_fields(&fields, text),
    }
}

} // verus!
