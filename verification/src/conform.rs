//! What it means for a generated value to follow a schema's rules.

use vstd::prelude::*;
use crate::schema::{SchemaNode, Type, keys_unique};
use crate::schema::lemma_entry_decreases;
use crate::timefmt::rfc3339_utc;
use crate::value::Value;

verus! {

/// A printable ASCII character: space inclusive to delete exclusive.
pub open spec fn printable(c: char) -> bool {
    32 <= (c as int) && (c as int) < 127
}

/// A string as the generator's string rule draws it: fewer than eight
/// characters, each printable ASCII.
pub open spec fn gen_string_ok(s: Seq<char>) -> bool {
    &&& s.len() < 8
    &&& forall|i: int| 0 <= i < s.len() ==> printable(#[trigger] s[i])
}

/// The structural contract of generation: `conforms(s, v)` holds exactly of
/// the values the generation rules for schema `s` can produce. An empty
/// schema yields null; a primitive leaf yields a value of its type (strings
/// as the string rule draws them, timestamps as chrono renders some 32-bit
/// second count); an enum yields one of its members; an elements schema
/// yields an array of fewer than eight conforming items; a properties
/// schema yields an object carrying every required field, any subset of the
/// optional fields, and nothing else; a values schema yields an object of
/// fewer than eight drawn keys with conforming values; a discriminator
/// yields an object that carries the tag field set to some mapping key and
/// otherwise follows that key's properties schema.
pub open spec fn conforms(s: SchemaNode, v: Value) -> bool
    decreases s, 1int,
    via conforms_decreases
{
    match s {
        SchemaNode::Empty => v is Null,
        SchemaNode::Type(t) => match t {
            Type::Boolean => v is Bool,
            Type::Number => v is Number,
            Type::String => v matches Value::Str(text) && gen_string_ok(text@),
            Type::Timestamp => v matches Value::Str(text) && (exists|n: i32|
                text@ == rfc3339_utc(n as int)),
        },
        SchemaNode::Enum(vals) => v matches Value::Str(text) && (exists|i: int|
            0 <= i < vals@.len() && text@ == (#[trigger] vals@[i])@),
        SchemaNode::Elements(sub) => v matches Value::Array(items) && {
            &&& items@.len() < 8
            &&& forall|i: int| 0 <= i < items@.len() ==> conforms(*sub, #[trigger] items@[i])
        },
        SchemaNode::Properties(required, optional) => v matches Value::Object(fields)
            && obj_conforms(required, optional, fields@, None),
        SchemaNode::Values(sub) => v matches Value::Object(fields) && {
            &&& fields@.len() < 8
            &&& keys_unique(fields@)
            &&& forall|j: int| 0 <= j < fields@.len() ==> gen_string_ok((#[trigger] fields@[j]).0@)
            &&& forall|j: int| 0 <= j < fields@.len() ==> conforms(*sub, (#[trigger] fields@[j]).1)
        },
        SchemaNode::Discriminator(tag, mapping) => v matches Value::Object(fields)
            && (exists|m: int|
            0 <= m < mapping@.len() && disc_conforms(tag@, #[trigger] mapping@[m], fields@)),
    }
}

/// An object follows a properties form when every required field is present
/// with a conforming value and every field it carries is accounted for: a
/// required field, an optional field with a conforming value, or the one
/// field name in `exclude` that the form does not govern (a discriminator's
/// tag). A plain properties object excludes nothing.
pub open spec fn obj_conforms(
    required: Vec<(String, SchemaNode)>,
    optional: Vec<(String, SchemaNode)>,
    fields: Seq<(String, Value)>,
    exclude: Option<Seq<char>>,
) -> bool
    decreases SchemaNode::Properties(required, optional), 0int,
    via obj_conforms_decreases
{
    &&& keys_unique(fields)
    &&& forall|i: int| 0 <= i < required@.len() ==> entry_present(#[trigger] required@[i], fields)
    &&& forall|j: int|
        0 <= j < fields.len() ==> {
            ||| (exclude matches Some(e) && (#[trigger] fields[j]).0@ == e)
            ||| field_conforming(required, fields[j])
            ||| field_conforming(optional, fields[j])
        }
}

/// The object carries a field named as the entry asks, with a value that
/// conforms to the entry's schema.
pub open spec fn entry_present(entry: (String, SchemaNode), fields: Seq<(String, Value)>) -> bool
    decreases entry, 0int,
    via entry_present_decreases
{
    exists|j: int|
        0 <= j < fields.len() && (#[trigger] fields[j]).0@ == entry.0@ && conforms(
            entry.1,
            fields[j].1,
        )
}

/// The field carries the name of one of the first `n` entries and a value
/// that conforms to that entry's schema.
pub open spec fn field_conforming_upto(
    entries: Vec<(String, SchemaNode)>,
    n: int,
    field: (String, Value),
) -> bool
    decreases entries, 0int,
    via field_conforming_upto_decreases
{
    exists|x: int|
        0 <= x < n && x < entries@.len() && field.0@ == (#[trigger] entries@[x]).0@ && conforms(
            entries@[x].1,
            field.1,
        )
}

/// The field carries the name of one of the entries and a value that
/// conforms to that entry's schema.
pub open spec fn field_conforming(
    entries: Vec<(String, SchemaNode)>,
    field: (String, Value),
) -> bool
    decreases entries, 1int,
{
    field_conforming_upto(entries, entries@.len() as int, field)
}

/// An object follows one discriminator mapping entry when it carries the
/// tag field set to the entry's key and otherwise follows the entry's
/// properties schema.
pub open spec fn disc_conforms(
    tag: Seq<char>,
    entry: (String, SchemaNode),
    fields: Seq<(String, Value)>,
) -> bool
    decreases entry, 0int,
    via disc_conforms_decreases
{
    &&& entry.1 matches SchemaNode::Properties(required, optional)
    &&& exists|j: int|
        0 <= j < fields.len() && (#[trigger] fields[j]).0@ == tag && (fields[j].1 matches Value::Str(
            text,
        ) && text@ == entry.0@)
    &&& obj_conforms(required, optional, fields, Some(tag))
}

#[via_fn]
proof fn conforms_decreases(s: SchemaNode, v: Value) {
    match s {
        SchemaNode::Elements(sub) => {
            assert(decreases_to!(s => *sub));
        },
        SchemaNode::Values(sub) => {
            assert(decreases_to!(s => *sub));
        },
        SchemaNode::Discriminator(tag, mapping) => {
            assert forall|m: int| 0 <= m < mapping@.len() implies decreases_to!(
                s => #[trigger] mapping@[m],
            ) by {
                assert(decreases_to!(s => mapping));
                assert(decreases_to!(mapping => mapping@[m]));
            }
        },
        _ => {},
    }
}

#[via_fn]
proof fn obj_conforms_decreases(
    required: Vec<(String, SchemaNode)>,
    optional: Vec<(String, SchemaNode)>,
    fields: Seq<(String, Value)>,
    exclude: Option<Seq<char>>,
) {
    let node = SchemaNode::Properties(required, optional);
    if let SchemaNode::Properties(req, opt) = node {
        assert(decreases_to!(node => req));
        assert(decreases_to!(node => opt));
        assert forall|i: int| 0 <= i < required@.len() implies decreases_to!(
            node => #[trigger] required@[i],
        ) by {
            assert(decreases_to!(required => required@[i]));
        }
    }
}

#[via_fn]
proof fn entry_present_decreases(entry: (String, SchemaNode), fields: Seq<(String, Value)>) {
    assert(decreases_to!(entry => entry.1));
}

#[via_fn]
proof fn field_conforming_upto_decreases(
    entries: Vec<(String, SchemaNode)>,
    n: int,
    field: (String, Value),
) {
    assert forall|x: int| 0 <= x < entries@.len() implies decreases_to!(
        entries => (#[trigger] entries@[x]).1,
    ) by {
        lemma_entry_decreases(entries, x);
    }
}

#[via_fn]
proof fn disc_conforms_decreases(
    tag: Seq<char>,
    entry: (String, SchemaNode),
    fields: Seq<(String, Value)>,
) {
    assert(decreases_to!(entry => entry.1));
}

} // verus!
