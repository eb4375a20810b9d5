//! JSON text as `serde_json` reads it, handed to the library as plain values.
//!
//! Reading JSON text is `serde_json`'s work. The wrappers here each make one
//! `serde_json` reading and return what the record grammar reads: the
//! members of a JSON object with each value's text as written, the kind of
//! one JSON value with its compact rendering, the members of a map of
//! values, a string, or a list of strings. The verified `read_json_object`
//! and `read_json_map` read each member's value with `read_json_value`.
use serde_json::Value;
use serde_json::value::RawValue;
use std::collections::BTreeMap;
use vstd::prelude::*;

verus! {

/// The kind of one JSON value, with the payload of a scalar.
pub enum JsonAtom {
    Null,
    Bool(bool),
    /// A number as `serde_json::Number` renders it, and whether it is held
    /// as a float (`Number::is_f64`).
    Number(String, bool),
    Str(String),
    Array,
    Object,
}

/// One member of a JSON object: its key, the kind of its value, the value
/// as compact JSON text, and the value's text as written.
pub struct JsonField {
    pub key: String,
    pub value: JsonAtom,
    pub text: String,
    pub raw: String,
}

/// One member of a JSON object: its key and its value's JSON text.
pub struct JsonMember {
    pub key: String,
    pub raw: String,
}

/// The mathematical content of a [`JsonAtom`].
pub enum AtomView {
    Null,
    Bool(bool),
    Number(Seq<char>, bool),
    Str(Seq<char>),
    Array,
    Object,
}

/// The mathematical content of a [`JsonField`].
pub struct FieldView {
    pub key: Seq<char>,
    pub value: AtomView,
    pub text: Seq<char>,
    pub raw: Seq<char>,
}

/// The mathematical content of a [`JsonMember`].
pub struct MemberView {
    pub key: Seq<char>,
    pub raw: Seq<char>,
}

impl View for JsonAtom {
    type V = AtomView;

    open spec fn view(&self) -> AtomView {
        match self {
            JsonAtom::Null => AtomView::Null,
            JsonAtom::Bool(b) => AtomView::Bool(*b),
            JsonAtom::Number(t, f) => AtomView::Number(t@, *f),
            JsonAtom::Str(s) => AtomView::Str(s@),
            JsonAtom::Array => AtomView::Array,
            JsonAtom::Object => AtomView::Object,
        }
    }
}

impl View for JsonField {
    type V = FieldView;

    open spec fn view(&self) -> FieldView {
        FieldView { key: self.key@, value: self.value@, text: self.text@, raw: self.raw@ }
    }
}

impl View for JsonMember {
    type V = MemberView;

    open spec fn view(&self) -> MemberView {
        MemberView { key: self.key@, raw: self.raw@ }
    }
}

/// The views of a sequence of members.
pub open spec fn members_view(members: Seq<JsonMember>) -> Seq<MemberView> {
    members.map_values(|m: JsonMember| m@)
}

/// The views of a sequence of fields.
pub open spec fn fields_view(fields: Seq<JsonField>) -> Seq<FieldView> {
    fields.map_values(|f: JsonField| f@)
}

/// `a` comes before `b` when their characters are compared one by one by
/// code point, a proper prefix coming first.
pub open spec fn chars_less(a: Seq<char>, b: Seq<char>) -> bool
    decreases a.len(),
{
    if a.len() == 0 {
        b.len() > 0
    } else if b.len() == 0 {
        false
    } else if a[0] != b[0] {
        (a[0] as u32) < (b[0] as u32)
    } else {
        chars_less(a.drop_first(), b.drop_first())
    }
}

/// No text comes before itself.
pub proof fn lemma_chars_less_irreflexive(a: Seq<char>)
    ensures
        !chars_less(a, a),
    decreases a.len(),
{
    if a.len() > 0 {
        lemma_chars_less_irreflexive(a.drop_first());
    }
}

/// The members' keys are strictly ascending, so no key occurs twice.
pub open spec fn keys_ascending(fields: Seq<FieldView>) -> bool {
    forall|i: int, j: int| 0 <= i < j < fields.len() ==> chars_less(#[trigger] fields[i].key, #[trigger] fields[j].key)
}

/// The members' keys are strictly ascending.
pub open spec fn member_keys_ascending(members: Seq<MemberView>) -> bool {
    forall|i: int, j: int| 0 <= i < j < members.len() ==> chars_less(#[trigger] members[i].key, #[trigger] members[j].key)
}

/// What `serde_json::from_str` makes of `text` read as a JSON object of raw
/// values (`BTreeMap<String, Box<RawValue>>`): its members in the map's
/// order, each with its value's text as written, or the error's message.
pub uninterp spec fn json_members(text: Seq<char>) -> Result<Seq<MemberView>, Seq<char>>;

/// What `serde_json::from_str` makes of `text` read as one JSON value
/// (`serde_json::Value`): its kind, and its compact rendering
/// (`Value::to_string`); or the error's message.
pub uninterp spec fn json_value(text: Seq<char>) -> Result<(AtomView, Seq<char>), Seq<char>>;

/// What `serde_json::from_value` makes of the `serde_json::Value` that
/// `serde_json::from_str` reads from `text`, taken as a list of strings
/// (`Vec<String>`): the strings, or the first error's message.
pub uninterp spec fn json_string_list(text: Seq<char>) -> Result<Seq<Seq<char>>, Seq<char>>;

/// What `serde_json::from_value` makes of the `serde_json::Value` that
/// `serde_json::from_str` reads from `text`, taken as a `String`: the
/// string, or the first error's message.
pub uninterp spec fn json_string(text: Seq<char>) -> Result<Seq<char>, Seq<char>>;

/// What `serde_json::from_value` makes of the `serde_json::Value` that
/// `serde_json::from_str` reads from `text`, taken as a
/// `serde_json::Map<String, Value>`: its members in the map's order, each
/// with its value's compact rendering (`Value::to_string`); or the first
/// error's message.
pub uninterp spec fn json_map_members(text: Seq<char>) -> Result<Seq<MemberView>, Seq<char>>;

/// The fields of the members of an object: each value read with
/// `json_value`, the first member whose value does not read giving the
/// error.
pub open spec fn fields_of(members: Seq<MemberView>) -> Result<Seq<FieldView>, Seq<char>>
    decreases members.len(),
{
    if members.len() == 0 {
        Ok(Seq::empty())
    } else {
        match fields_of(members.drop_last()) {
            Err(message) => Err(message),
            Ok(fields) => match json_value(members.last().raw) {
                Err(message) => Err(message),
                Ok((value, text)) => Ok(fields.push(FieldView { key: members.last().key, value, text, raw: members.last().raw })),
            },
        }
    }
}

/// The fields of `text` read as a map of JSON values, or the first error.
pub open spec fn json_map_fields(text: Seq<char>) -> Result<Seq<FieldView>, Seq<char>> {
    match json_map_members(text) {
        Err(message) => Err(message),
        Ok(members) => fields_of(members),
    }
}

/// The fields of `text` read as a JSON object, or the first error.
pub open spec fn json_object_fields(text: Seq<char>) -> Result<Seq<FieldView>, Seq<char>> {
    match json_members(text) {
        Err(message) => Err(message),
        Ok(members) => fields_of(members),
    }
}

/// Reads `text` as a JSON object with `serde_json::from_str` into a
/// `BTreeMap<String, Box<RawValue>>`, and hands each member on as its key
/// and its value's text as written (`RawValue::get`); an error as its
/// message (`Error::to_string`). A `BTreeMap` holds each key once and
/// iterates in ascending key order, and `String` orders by its UTF-8 bytes,
/// which order as the code points do. Beyond that the contract only names
/// the outcome: which texts `serde_json` accepts is left to it.
#[verifier::external_body]
pub(crate) fn read_json_members(text: &str) -> (res: Result<Vec<JsonMember>, String>)
    ensures
        match res {
            Ok(members) => json_members(text@) == Ok::<Seq<MemberView>, Seq<char>>(members_view(members@))
                && member_keys_ascending(members_view(members@)),
            Err(message) => json_members(text@) == Err::<Seq<MemberView>, Seq<char>>(message@),
        },
{
    let map = serde_json::from_str::<BTreeMap<String, Box<RawValue>>>(text).map_err(|e| e.to_string())?;
    Ok(map.into_iter().map(|(key, raw)| JsonMember { key, raw: raw.get().to_owned() }).collect())
}

/// Reads `text` as one JSON value with `serde_json::from_str` into a
/// `serde_json::Value`, and hands on its kind (with `Number::to_string` /
/// `Number::is_f64` for a number) and its compact rendering
/// (`Value::to_string`); an error as its message (`Error::to_string`). The
/// contract only names the outcome.
#[verifier::external_body]
pub(crate) fn read_json_value(text: &str) -> (res: Result<(JsonAtom, String), String>)
    ensures
        match res {
            Ok((value, rendered)) => json_value(text@) == Ok::<(AtomView, Seq<char>), Seq<char>>((value@, rendered@)),
            Err(message) => json_value(text@) == Err::<(AtomView, Seq<char>), Seq<char>>(message@),
        },
{
    let v = serde_json::from_str::<Value>(text).map_err(|e| e.to_string())?;
    Ok((match &v {
        Value::Null => JsonAtom::Null,
        Value::Bool(b) => JsonAtom::Bool(*b),
        Value::Number(n) => JsonAtom::Number(n.to_string(), n.is_f64()),
        Value::String(s) => JsonAtom::Str(s.clone()),
        Value::Array(_) => JsonAtom::Array,
        Value::Object(_) => JsonAtom::Object,
    }, v.to_string()))
}

/// Reads `text` as a JSON object: its members, in ascending key order, each
/// value's kind, compact rendering and text as written; or the first error.
pub fn read_json_object(text: &str) -> (res: Result<Vec<JsonField>, String>)
    ensures
        match res {
            Ok(fields) => json_object_fields(text@) == Ok::<Seq<FieldView>, Seq<char>>(fields_view(fields@))
                && keys_ascending(fields_view(fields@)),
            Err(message) => json_object_fields(text@) == Err::<Seq<FieldView>, Seq<char>>(message@),
        },
{
    match read_json_members(text) {
        Ok(members) => fields_from_members(&members),
        Err(message) => Err(message),
    }
}

/// Reads `text` as a JSON object of any values: its members, in ascending
/// key order, each value's kind and compact rendering; or the first error.
pub fn read_json_map(text: &str) -> (res: Result<Vec<JsonField>, String>)
    ensures
        match res {
            Ok(fields) => json_map_fields(text@) == Ok::<Seq<FieldView>, Seq<char>>(fields_view(fields@))
                && keys_ascending(fields_view(fields@)),
            Err(message) => json_map_fields(text@) == Err::<Seq<FieldView>, Seq<char>>(message@),
        },
{
    match read_json_map_members(text) {
        Ok(members) => fields_from_members(&members),
        Err(message) => Err(message),
    }
}

/// Reads the value of each member: the fields of the members in order, or
/// the first error.
fn fields_from_members(members: &Vec<JsonMember>) -> (res: Result<Vec<JsonField>, String>)
    requires
        member_keys_ascending(members_view(members@)),
    ensures
        match res {
            Ok(fields) => fields_of(members_view(members@)) == Ok::<Seq<FieldView>, Seq<char>>(fields_view(fields@))
                && keys_ascending(fields_view(fields@)),
            Err(message) => fields_of(members_view(members@)) == Err::<Seq<FieldView>, Seq<char>>(message@),
        },
{
    let ghost mv = members_view(members@);
    let mut fields: Vec<JsonField> = Vec::new();
    let mut i: usize = 0;
    assert(mv.take(0) =~= Seq::<MemberView>::empty());
    assert(fields_view(fields@) =~= Seq::<FieldView>::empty());
    while i < members.len()
        invariant
            i <= members@.len(),
            mv == members_view(members@),
            member_keys_ascending(mv),
            fields_of(mv.take(i as int)) == Ok::<Seq<FieldView>, Seq<char>>(fields_view(fields@)),
            fields@.len() == i,
            forall|k: int| 0 <= k < i ==> (#[trigger] fields@[k]).key@ == mv[k].key,
        decreases members.len() - i,
    {
        assert(mv.take(i + 1).drop_last() =~= mv.take(i as int));
        assert(mv.take(i + 1).last() == members@[i as int]@);
        let (value, rendered) = match read_json_value(members[i].raw.as_str()) {
            Ok(read) => read,
            Err(message) => {
                proof {
                    assert(json_value(mv.take(i + 1).last().raw) == Err::<(AtomView, Seq<char>), Seq<char>>(message@));
                    assert(fields_of(mv.take(i + 1)) == Err::<Seq<FieldView>, Seq<char>>(message@));
                    lemma_fields_of_stops(mv.take(i + 1), mv.skip(i + 1), message@);
                    assert(mv.take(i + 1) + mv.skip(i + 1) =~= mv);
                }
                return Err(message);
            },
        };
        let field = JsonField { key: members[i].key.clone(), value, text: rendered, raw: members[i].raw.clone() };
        let ghost before = fields_view(fields@);
        fields.push(field);
        assert(fields_view(fields@) =~= before.push(field@));
        i = i + 1;
    }
    assert(mv.take(members@.len() as int) =~= mv);
    assert forall|a: int, b: int| 0 <= a < b < fields@.len() implies chars_less(#[trigger] fields_view(fields@)[a].key, #[trigger] fields_view(fields@)[b].key) by {
        assert(fields_view(fields@)[a].key == mv[a].key);
        assert(fields_view(fields@)[b].key == mv[b].key);
    }
    Ok(fields)
}

/// Once a member's value does not read, the object does not either.
proof fn lemma_fields_of_stops(members: Seq<MemberView>, more: Seq<MemberView>, message: Seq<char>)
    requires
        fields_of(members) == Err::<Seq<FieldView>, Seq<char>>(message),
    ensures
        fields_of(members + more) == Err::<Seq<FieldView>, Seq<char>>(message),
    decreases more.len(),
{
    if more.len() == 0 {
        assert(members + more =~= members);
    } else {
        lemma_fields_of_stops(members, more.drop_last(), message);
        assert((members + more).drop_last() =~= members + more.drop_last());
    }
}

/// Reads `text` as one JSON value with `serde_json::from_str` into a
/// `serde_json::Value`, and that value with `serde_json::from_value` as a
/// `Vec<String>`; an error as its message (`Error::to_string`). The
/// contract only names the outcome.
#[verifier::external_body]
pub(crate) fn read_json_string_list(text: &str) -> (res: Result<Vec<String>, String>)
    ensures
        match res {
            Ok(items) => json_string_list(text@) == Ok::<Seq<Seq<char>>, Seq<char>>(items@.map_values(|s: String| s@)),
            Err(message) => json_string_list(text@) == Err::<Seq<Seq<char>>, Seq<char>>(message@),
        },
{
    serde_json::from_str::<Value>(text).and_then(serde_json::from_value::<Vec<String>>).map_err(|e| e.to_string())
}

/// Reads `text` as one JSON value with `serde_json::from_str` into a
/// `serde_json::Value`, and that value with `serde_json::from_value` as a
/// `String`; an error as its message (`Error::to_string`). The contract
/// only names the outcome.
#[verifier::external_body]
pub(crate) fn read_json_string(text: &str) -> (res: Result<String, String>)
    ensures
        match res {
            Ok(s) => json_string(text@) == Ok::<Seq<char>, Seq<char>>(s@),
            Err(message) => json_string(text@) == Err::<Seq<char>, Seq<char>>(message@),
        },
{
    serde_json::from_str::<Value>(text).and_then(serde_json::from_value::<String>).map_err(|e| e.to_string())
}

/// Reads `text` as one JSON value with `serde_json::from_str` into a
/// `serde_json::Value`, and that value with `serde_json::from_value` as a
/// `serde_json::Map<String, Value>`, and hands each member on as its key
/// and its value's compact rendering (`Value::to_string`); an error as its
/// message (`Error::to_string`). Without the `preserve_order` feature,
/// which nothing here turns on, the map is a `BTreeMap`: it holds each key
/// once and iterates in ascending key order, by UTF-8 bytes, which order as
/// the code points do. Beyond that the contract only names the outcome.
#[verifier::external_body]
pub(crate) fn read_json_map_members(text: &str) -> (res: Result<Vec<JsonMember>, String>)
    ensures
        match res {
            Ok(members) => json_map_members(text@) == Ok::<Seq<MemberView>, Seq<char>>(members_view(members@))
                && member_keys_ascending(members_view(members@)),
            Err(message) => json_map_members(text@) == Err::<Seq<MemberView>, Seq<char>>(message@),
        },
{
    let map = serde_json::from_str::<Value>(text).and_then(serde_json::from_value::<serde_json::Map<String, Value>>).map_err(|e| e.to_string())?;
    Ok(map.into_iter().map(|(key, value)| JsonMember { key, raw: value.to_string() }).collect())
}

} // verus!
