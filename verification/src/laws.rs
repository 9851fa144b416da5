//! The guarantees of generation, stated on their own: every value the
//! generator can produce for a composite schema carries exactly the
//! structure the schema asks for.

use vstd::prelude::*;
use crate::conform::{conforms, disc_conforms, entry_present, field_conforming, gen_string_ok, obj_conforms};
use crate::schema::{SchemaNode, has_key, keys_unique};
use crate::value::Value;

verus! {

/// A value generated for a properties schema is an object that carries
/// every required key, only keys drawn from the required and optional
/// sets, and pairwise distinct keys.
pub proof fn lemma_props_keys(
    required: Vec<(String, SchemaNode)>,
    optional: Vec<(String, SchemaNode)>,
    v: Value,
)
    requires
        conforms(SchemaNode::Properties(required, optional), v),
    ensures
        v is Object,
        keys_unique(v->Object_0@),
        forall|i: int|
            0 <= i < required@.len() ==> has_key(v->Object_0@, (#[trigger] required@[i]).0@),
        forall|j: int|
            0 <= j < v->Object_0@.len() ==> has_key(required@, (#[trigger] v->Object_0@[j]).0@)
                || has_key(optional@, v->Object_0@[j].0@),
{
    let fields = v->Object_0@;
    assert(v matches Value::Object(fv) && obj_conforms(required, optional, fv@, None));
    assert forall|i: int| 0 <= i < required@.len() implies has_key(
        fields,
        (#[trigger] required@[i]).0@,
    ) by {
        assert(entry_present(required@[i], fields));
        let j = choose|j: int|
            0 <= j < fields.len() && (#[trigger] fields[j]).0@ == required@[i].0@ && conforms(
                required@[i].1,
                fields[j].1,
            );
        assert((#[trigger] fields[j]).0@ == required@[i].0@);
    }
    assert forall|j: int| 0 <= j < fields.len() implies has_key(
        required@,
        (#[trigger] fields[j]).0@,
    ) || has_key(optional@, fields[j].0@) by {
        assert(field_conforming(required, fields[j]) || field_conforming(optional, fields[j]));
        if field_conforming(required, fields[j]) {
            let x = choose|x: int|
                0 <= x < required@.len() && x < required@.len() && fields[j].0@ == (
                #[trigger] required@[x]).0@ && conforms(required@[x].1, fields[j].1);
            assert((#[trigger] required@[x]).0@ == fields[j].0@);
        } else {
            let x = choose|x: int|
                0 <= x < optional@.len() && x < optional@.len() && fields[j].0@ == (
                #[trigger] optional@[x]).0@ && conforms(optional@[x].1, fields[j].1);
            assert((#[trigger] optional@[x]).0@ == fields[j].0@);
        }
    }
}

/// A value generated for an enum schema is one of the enum's members.
pub proof fn lemma_enum_member(vals: Vec<String>, v: Value)
    requires
        conforms(SchemaNode::Enum(vals), v),
    ensures
        v is Str,
        exists|i: int| 0 <= i < vals@.len() && v->Str_0@ == (#[trigger] vals@[i])@,
{
}

/// A value generated for an elements schema is an array of fewer than
/// eight items, each of which conforms to the item schema.
pub proof fn lemma_elements_bounds(sub: Box<SchemaNode>, v: Value)
    requires
        conforms(SchemaNode::Elements(sub), v),
    ensures
        v is Array,
        0 <= v->Array_0@.len() < 8,
        forall|i: int| 0 <= i < v->Array_0@.len() ==> conforms(*sub, #[trigger] v->Array_0@[i]),
{
}

/// A value generated for a values schema is an object of fewer than eight
/// fields with pairwise distinct drawn keys, each value conforming to the
/// value schema.
pub proof fn lemma_values_bounds(sub: Box<SchemaNode>, v: Value)
    requires
        conforms(SchemaNode::Values(sub), v),
    ensures
        v is Object,
        0 <= v->Object_0@.len() < 8,
        keys_unique(v->Object_0@),
        forall|j: int| 0 <= j < v->Object_0@.len() ==> gen_string_ok((#[trigger] v->Object_0@[j]).0@),
        forall|j: int| 0 <= j < v->Object_0@.len() ==> conforms(*sub, (#[trigger] v->Object_0@[j]).1),
{
}

/// A value generated for a discriminator schema is an object that carries
/// the tag field, set to the key of one mapping entry, and the rest of the
/// object follows that entry's properties schema with the tag excluded.
pub proof fn lemma_discriminator_tag(tag: String, mapping: Vec<(String, SchemaNode)>, v: Value)
    requires
        conforms(SchemaNode::Discriminator(tag, mapping), v),
    ensures
        v is Object,
        keys_unique(v->Object_0@),
        exists|j: int, m: int|
            0 <= j < v->Object_0@.len() && 0 <= m < mapping@.len() && (#[trigger] v->Object_0@[j]).0@
                == tag@ && (v->Object_0@[j].1 matches Value::Str(text) && text@ == (
            #[trigger] mapping@[m]).0@),
        exists|m: int|
            0 <= m < mapping@.len() && ((#[trigger] mapping@[m]).1
                matches SchemaNode::Properties(required, optional) && obj_conforms(
                required,
                optional,
                v->Object_0@,
                Some(tag@),
            )),
{
    let fields = v->Object_0@;
    let m = choose|m: int| 0 <= m < mapping@.len() && disc_conforms(tag@, #[trigger] mapping@[m], fields);
    assert(disc_conforms(tag@, mapping@[m], fields));
    let j = choose|j: int|
        0 <= j < fields.len() && (#[trigger] fields[j]).0@ == tag@ && (fields[j].1
            matches Value::Str(text) && text@ == mapping@[m].0@);
    assert(0 <= j < fields.len() && 0 <= m < mapping@.len() && (#[trigger] fields[j]).0@ == tag@ && (
    fields[j].1 matches Value::Str(text) && text@ == (#[trigger] mapping@[m]).0@));
}

} // verus!
