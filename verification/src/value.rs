//! JSON values to text properties with type hints.
use crate::json::{
    AtomView, FieldView, JsonAtom, JsonField, chars_less, fields_view, keys_ascending, lemma_chars_less_irreflexive,
};
use crate::types::{Property, PropertyView, properties_view};
use vstd::prelude::*;

verus! {

/// Type hint for a JSON string.
pub open spec fn hint_string() -> Seq<char> {
    "string"@
}

/// Type hint for a JSON integer.
pub open spec fn hint_int() -> Seq<char> {
    "int"@
}

/// Type hint for a JSON non-integer number.
pub open spec fn hint_float() -> Seq<char> {
    "float"@
}

/// Type hint for a JSON boolean.
pub open spec fn hint_boolean() -> Seq<char> {
    "boolean"@
}

/// Type hint for a JSON array or object (kept as compact JSON text).
pub open spec fn hint_json() -> Seq<char> {
    "json"@
}

/// The property that one member of a `properties` object becomes: `None`
/// for a `null` value, which is an absent property.
pub open spec fn property_of(field: FieldView) -> Option<PropertyView> {
    match field.value {
        AtomView::Null => None,
        AtomView::Str(s) => Some(PropertyView { name: field.key, value: s, type_hint: Some(hint_string()) }),
        AtomView::Number(t, is_float) => Some(
            PropertyView {
                name: field.key,
                value: t,
                type_hint: Some(if is_float { hint_float() } else { hint_int() }),
            },
        ),
        AtomView::Bool(b) => Some(
            PropertyView {
                name: field.key,
                value: if b { "true"@ } else { "false"@ },
                type_hint: Some(hint_boolean()),
            },
        ),
        AtomView::Array => Some(PropertyView { name: field.key, value: field.text, type_hint: Some(hint_json()) }),
        AtomView::Object => Some(PropertyView { name: field.key, value: field.text, type_hint: Some(hint_json()) }),
    }
}

/// The properties of the members of a `properties` object, in member order,
/// `null` members left out.
pub open spec fn properties_of(fields: Seq<FieldView>) -> Seq<PropertyView>
    decreases fields.len(),
{
    if fields.len() == 0 {
        Seq::empty()
    } else {
        let rest = properties_of(fields.drop_last());
        match property_of(fields.last()) {
            Some(p) => rest.push(p),
            None => rest,
        }
    }
}

/// One of the five type hints a property can carry.
pub open spec fn is_type_hint(h: Seq<char>) -> bool {
    ||| h == hint_string()
    ||| h == hint_int()
    ||| h == hint_float()
    ||| h == hint_boolean()
    ||| h == hint_json()
}

/// The properties of an object are exactly its non-`null` members, in
/// member order: each property is made from a non-`null` member, each
/// non-`null` member makes one, and every property carries one of the five
/// type hints.
pub proof fn lemma_properties_are_the_non_null_members(fields: Seq<FieldView>)
    ensures
        properties_of(fields).len() <= fields.len(),
        forall|i: int| 0 <= i < properties_of(fields).len() ==> ((#[trigger] properties_of(fields)[i]).type_hint matches Some(h) && is_type_hint(h)),
        forall|i: int|
            #![trigger properties_of(fields)[i]]
            0 <= i < properties_of(fields).len() ==> exists|j: int|
                #![trigger fields[j]]
                0 <= j < fields.len() && property_of(fields[j]) == Some(properties_of(fields)[i]),
        forall|j: int|
            #![trigger fields[j]]
            0 <= j < fields.len() && !(fields[j].value is Null) ==> exists|i: int|
                #![trigger properties_of(fields)[i]]
                0 <= i < properties_of(fields).len() && property_of(fields[j]) == Some(properties_of(fields)[i]),
    decreases fields.len(),
{
    if fields.len() > 0 {
        let init = fields.drop_last();
        lemma_properties_are_the_non_null_members(init);
        let rest = properties_of(init);
        let all = properties_of(fields);
        assert forall|i: int| #![trigger all[i]] 0 <= i < all.len() implies exists|j: int| #![trigger fields[j]] 0 <= j < fields.len() && property_of(fields[j]) == Some(all[i]) by {
            if i < rest.len() {
                assert(all[i] == rest[i]);
                let j = choose|j: int| #![trigger init[j]] 0 <= j < init.len() && property_of(init[j]) == Some(rest[i]);
                assert(fields[j] == init[j]);
            } else {
                assert(property_of(fields[fields.len() - 1]) == Some(all[i]));
            }
        }
        assert forall|j: int| #![trigger fields[j]] 0 <= j < fields.len() && !(fields[j].value is Null) implies exists|i: int| #![trigger all[i]] 0 <= i < all.len() && property_of(fields[j]) == Some(all[i]) by {
            if j < init.len() {
                assert(fields[j] == init[j]);
                let i = choose|i: int| #![trigger rest[i]] 0 <= i < rest.len() && property_of(init[j]) == Some(rest[i]);
                assert(all[i] == rest[i]);
            } else {
                assert(all[all.len() - 1] == property_of(fields.last())->0);
            }
        }
        assert forall|i: int| 0 <= i < all.len() implies ((#[trigger] all[i]).type_hint matches Some(h) && is_type_hint(h)) by {
            if i < rest.len() {
                assert(all[i] == rest[i]);
            }
        }
    }
}

/// The property names are strictly ascending, so no name occurs twice.
pub open spec fn names_ascending(properties: Seq<PropertyView>) -> bool {
    forall|i: int, j: int|
        0 <= i < j < properties.len() ==> chars_less(#[trigger] properties[i].name, #[trigger] properties[j].name)
}

/// Members whose keys all come before `bound` make properties whose names
/// all do.
pub proof fn lemma_names_below(fields: Seq<FieldView>, bound: Seq<char>)
    requires
        forall|j: int| 0 <= j < fields.len() ==> chars_less(#[trigger] fields[j].key, bound),
    ensures
        forall|i: int| 0 <= i < properties_of(fields).len() ==> chars_less(#[trigger] properties_of(fields)[i].name, bound),
    decreases fields.len(),
{
    if fields.len() > 0 {
        let init = fields.drop_last();
        assert forall|j: int| 0 <= j < init.len() implies chars_less(#[trigger] init[j].key, bound) by {
            assert(init[j] == fields[j]);
        }
        lemma_names_below(init, bound);
        let rest = properties_of(init);
        let all = properties_of(fields);
        assert(chars_less(fields[fields.len() - 1].key, bound));
        assert forall|i: int| 0 <= i < all.len() implies chars_less(#[trigger] all[i].name, bound) by {
            if i < rest.len() {
                assert(all[i] == rest[i]);
            }
        }
    }
}

/// Members with ascending keys make properties with ascending names.
pub proof fn lemma_properties_keep_key_order(fields: Seq<FieldView>)
    requires
        keys_ascending(fields),
    ensures
        names_ascending(properties_of(fields)),
    decreases fields.len(),
{
    if fields.len() > 0 {
        let init = fields.drop_last();
        assert(keys_ascending(init)) by {
            assert forall|i: int, j: int| 0 <= i < j < init.len() implies chars_less(#[trigger] init[i].key, #[trigger] init[j].key) by {
                assert(init[i] == fields[i] && init[j] == fields[j]);
            }
        }
        lemma_properties_keep_key_order(init);
        let last = fields[fields.len() - 1].key;
        assert forall|j: int| 0 <= j < init.len() implies chars_less(#[trigger] init[j].key, last) by {
            assert(init[j] == fields[j]);
        }
        lemma_names_below(init, last);
        let rest = properties_of(init);
        let all = properties_of(fields);
        match property_of(fields.last()) {
            Some(p) => {
                assert(all == rest.push(p));
                assert forall|i: int, j: int| 0 <= i < j < all.len() implies chars_less(#[trigger] all[i].name, #[trigger] all[j].name) by {
                    assert(all[i] == rest[i]);
                    if j < rest.len() {
                        assert(all[j] == rest[j]);
                    }
                }
            },
            None => {},
        }
    }
}

/// Property names that are strictly ascending are distinct.
pub proof fn lemma_ascending_names_are_distinct(properties: Seq<PropertyView>)
    requires
        names_ascending(properties),
    ensures
        forall|i: int, j: int| 0 <= i < j < properties.len() ==> #[trigger] properties[i].name != #[trigger] properties[j].name,
{
    assert forall|i: int, j: int| 0 <= i < j < properties.len() implies #[trigger] properties[i].name != #[trigger] properties[j].name by {
        lemma_chars_less_irreflexive(properties[i].name);
    }
}

/// One member as a property; `None` for a `null` value.
pub fn property_from(field: &JsonField) -> (res: Option<Property>)
    ensures
        match res {
            Some(p) => property_of(field@) == Some(p@),
            None => property_of(field@).is_none(),
        },
{
    let name = field.key.clone();
    match &field.value {
        JsonAtom::Null => None,
        JsonAtom::Str(s) => Some(
            Property { name, value: s.clone(), type_hint: Some(String::from_str("string")) },
        ),
        JsonAtom::Number(t, is_float) => {
            let hint = if *is_float {
                String::from_str("float")
            } else {
                String::from_str("int")
            };
            Some(Property { name, value: t.clone(), type_hint: Some(hint) })
        },
        JsonAtom::Bool(b) => {
            let value = if *b {
                String::from_str("true")
            } else {
                String::from_str("false")
            };
            Some(Property { name, value, type_hint: Some(String::from_str("boolean")) })
        },
        JsonAtom::Array => Some(
            Property { name, value: field.text.clone(), type_hint: Some(String::from_str("json")) },
        ),
        JsonAtom::Object => Some(
            Property { name, value: field.text.clone(), type_hint: Some(String::from_str("json")) },
        ),
    }
}

/// Convert the members of a `properties` object into properties in member
/// order. `null` values are skipped: a null property is an absent property.
pub fn properties_from(fields: &Vec<JsonField>) -> (res: Vec<Property>)
    ensures
        properties_view(res@) == properties_of(fields_view(fields@)),
        keys_ascending(fields_view(fields@)) ==> names_ascending(properties_view(res@)),
{
    let mut res: Vec<Property> = Vec::new();
    let mut i: usize = 0;
    while i < fields.len()
        invariant
            i <= fields.len(),
            properties_view(res@) == properties_of(fields_view(fields@).take(i as int)),
        decreases fields.len() - i,
    {
        let ghost before = fields_view(fields@).take(i as int);
        let ghost after = fields_view(fields@).take(i + 1);
        assert(after.drop_last() =~= before);
        assert(after.last() == fields[i as int]@);
        match property_from(&fields[i]) {
            Some(p) => {
                res.push(p);
                assert(properties_view(res@) =~= properties_view(res@.drop_last()).push(p@));
            },
            None => {},
        }
        i = i + 1;
    }
    assert(fields_view(fields@).take(fields.len() as int) =~= fields_view(fields@));
    proof {
        if keys_ascending(fields_view(fields@)) {
            lemma_properties_keep_key_order(fields_view(fields@));
        }
    }
    res
}


/// The members of a `properties` object whose value is not `null`, in
/// member order.
pub open spec fn non_null_members(fields: Seq<FieldView>) -> Seq<FieldView> {
    fields.filter(|f: FieldView| !(f.value is Null))
}

/// Each non-`null` member of a `properties` object makes exactly one
/// property, in member order: there are as many properties as non-`null`
/// members, and the `k`-th property is the one the `k`-th of them makes.
pub proof fn lemma_one_property_per_non_null_member(fields: Seq<FieldView>)
    ensures
        properties_of(fields).len() == non_null_members(fields).len(),
        forall|k: int|
            0 <= k < properties_of(fields).len() ==> property_of(#[trigger] non_null_members(fields)[k]) == Some(
                properties_of(fields)[k],
            ),
    decreases fields.len(),
{
    reveal(Seq::filter);
    if fields.len() > 0 {
        let init = fields.drop_last();
        lemma_one_property_per_non_null_member(init);
        assert(non_null_members(fields) == if !(fields.last().value is Null) {
            non_null_members(init).push(fields.last())
        } else {
            non_null_members(init)
        });
    }
}

/// A property's type hint is fixed by the JSON kind of the member's value
/// alone: a string gives `string`, an integer `int`, any other number
/// `float`, a boolean `boolean`, an array or an object `json`; a `null`
/// member gives no property. The name is the member's key, and a string is
/// kept as it is.
pub proof fn lemma_type_hint_follows_json_kind(field: FieldView)
    ensures
        field.value is Null <==> property_of(field).is_none(),
        property_of(field) matches Some(p) ==> p.name == field.key,
        field.value matches AtomView::Str(s) ==> property_of(field) == Some(
            PropertyView { name: field.key, value: s, type_hint: Some("string"@) },
        ),
        field.value matches AtomView::Number(t, is_float) ==> property_of(field) == Some(
            PropertyView { name: field.key, value: t, type_hint: Some(if is_float { "float"@ } else { "int"@ }) },
        ),
        field.value is Bool ==> (property_of(field) matches Some(p) && p.type_hint == Some("boolean"@)),
        (field.value is Array || field.value is Object) ==> property_of(field) == Some(
            PropertyView { name: field.key, value: field.text, type_hint: Some("json"@) },
        ),
{
}

/// Two members whose values are of the same JSON kind get the same type
/// hint, whatever the values themselves are.
pub proof fn lemma_same_kind_same_hint(a: FieldView, b: FieldView)
    requires
        ({
            ||| a.value is Str && b.value is Str
            ||| a.value is Bool && b.value is Bool
            ||| (a.value is Array || a.value is Object) && (b.value is Array || b.value is Object)
            ||| (a.value matches AtomView::Number(_, fa) && b.value matches AtomView::Number(_, fb) && fa == fb)
        }),
    ensures
        property_of(a) matches Some(p) && property_of(b) matches Some(q) && p.type_hint == q.type_hint,
{
}

} // verus!
