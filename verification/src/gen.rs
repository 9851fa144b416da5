//! The value generator: one recursive dispatch over the schema forms.

use rand::rngs::StdRng;
use vstd::prelude::*;
use vstd::pervasive::unreached;
use crate::conform::{conforms, disc_conforms, entry_present, field_conforming, field_conforming_upto, gen_string_ok, obj_conforms, printable};
use crate::rng::{random_below, random_bits, random_bool, random_i32};
use crate::schema::{SchemaNode, Type, has_key, keys_unique, lemma_entry_decreases, wf, wf_mapped, wf_props};
use crate::timefmt::{rfc3339_utc, timestamp_rfc3339};
use crate::value::{Value, obj_insert};

verus! {

/// The empty form: the null value.
pub fn fuzz_null() -> (v: Value)
    ensures
        v is Null,
{
    Value::Null
}

/// The boolean rule: a uniformly random boolean.
pub fn fuzz_bool(rng: &mut StdRng) -> (v: Value)
    ensures
        v is Bool,
{
    Value::Bool(random_bool(rng))
}

/// The number rule: a number whose 64 bits are drawn uniformly, so the
/// value spans the whole representable range.
pub fn fuzz_number(rng: &mut StdRng) -> (v: Value)
    ensures
        v is Number,
{
    Value::Number(random_bits(rng))
}

/// The string rule's text: a random length below eight, then one printable
/// ASCII character per position.
pub fn random_string(rng: &mut StdRng) -> (s: String)
    ensures
        gen_string_ok(s@),
{
    let len = random_below(rng, 8);
    let mut s = String::new();
    let mut k: usize = 0;
    while k < len
        invariant
            k <= len < 8,
            s@.len() == k,
            forall|i: int| 0 <= i < s@.len() ==> printable(#[trigger] s@[i]),
        decreases len - k,
    {
        let b = 32 + random_below(rng, 95);
        let c = (b as u8) as char;
        assert(printable(c));
        s.push(c);
        k += 1;
    }
    s
}

/// The string rule: a random printable string as a value.
pub fn fuzz_string(rng: &mut StdRng) -> (v: Value)
    ensures
        (v matches Value::Str(text) && gen_string_ok(text@)),
{
    Value::Str(random_string(rng))
}

/// The timestamp rule: a uniformly random 32-bit second count, rendered in
/// RFC 3339 extended format in UTC.
pub fn fuzz_timestamp(rng: &mut StdRng) -> (v: Value)
    ensures
        (v matches Value::Str(text) && exists|n: i32| text@ == rfc3339_utc(n as int)),
{
    let n = random_i32(rng);
    let text = timestamp_rfc3339(n);
    proof {
        assert(text@ == rfc3339_utc(n as int));
    }
    Value::Str(text)
}

/// The enum rule: one member of the value set, chosen uniformly.
pub fn fuzz_enum(rng: &mut StdRng, vals: &Vec<String>) -> (v: Value)
    requires
        vals@.len() > 0,
    ensures
        (v matches Value::Str(text) && exists|i: int|
            0 <= i < vals@.len() && text@ == (#[trigger] vals@[i])@),
{
    let idx = random_below(rng, vals.len());
    let text = vals[idx].clone();
    proof {
        assert(text@ == vals@[idx as int]@);
    }
    Value::Str(text)
}

/// Generate one value that follows the schema's rules, drawing every random
/// choice from `rng`. The schema must be well formed; the result then
/// conforms to it.
pub fn fuzz(rng: &mut StdRng, schema: &SchemaNode) -> (v: Value)
    requires
        wf(*schema),
    ensures
        conforms(*schema, v),
    decreases *schema, 1int,
{
    match schema {
        SchemaNode::Empty => fuzz_null(),
        SchemaNode::Type(t) => match t {
            Type::Boolean => fuzz_bool(rng),
            Type::Number => fuzz_number(rng),
            Type::String => fuzz_string(rng),
            Type::Timestamp => fuzz_timestamp(rng),
        },
        SchemaNode::Enum(vals) => fuzz_enum(rng, vals),
        SchemaNode::Elements(sub) => fuzz_elems(rng, &**sub),
        SchemaNode::Properties(required, optional) => fuzz_props(rng, required, optional),
        SchemaNode::Values(sub) => fuzz_values(rng, &**sub),
        SchemaNode::Discriminator(tag, mapping) => fuzz_discr(rng, tag, mapping),
    }
}

/// The elements rule: a random length below eight, then one independently
/// generated item per position.
#[verifier::loop_isolation(false)]
pub fn fuzz_elems(rng: &mut StdRng, sub: &SchemaNode) -> (v: Value)
    requires
        wf(*sub),
    ensures
        (v matches Value::Array(items) && {
            &&& items@.len() < 8
            &&& forall|i: int| 0 <= i < items@.len() ==> conforms(*sub, #[trigger] items@[i])
        }),
    decreases *sub, 2int,
{
    let len = random_below(rng, 8);
    let mut items: Vec<Value> = Vec::new();
    let mut k: usize = 0;
    while k < len
        invariant
            wf(*sub),
            k <= len < 8,
            items@.len() == k,
            forall|i: int| 0 <= i < items@.len() ==> conforms(*sub, #[trigger] items@[i]),
        decreases len - k,
    {
        let item = fuzz(rng, sub);
        items.push(item);
        k += 1;
    }
    Value::Array(items)
}

/// The properties rule: one field per required entry, always; one field per
/// optional entry when an unbiased coin lands true; nothing else.
#[verifier::loop_isolation(false)]
pub fn fuzz_props(
    rng: &mut StdRng,
    required: &Vec<(String, SchemaNode)>,
    optional: &Vec<(String, SchemaNode)>,
) -> (v: Value)
    requires
        wf_props(*required, *optional),
    ensures
        (v matches Value::Object(fields) && obj_conforms(*required, *optional, fields@, None)),
    decreases SchemaNode::Properties(*required, *optional), 0int,
{
    let ghost node = SchemaNode::Properties(*required, *optional);
    proof {
        if let SchemaNode::Properties(req, opt) = node {
            assert(decreases_to!(node => req));
            assert(decreases_to!(node => opt));
        }
    }
    let mut fields: Vec<(String, Value)> = Vec::new();
    let mut i: usize = 0;
    while i < required.len()
        invariant
            i <= required@.len(),
            fields@.len() == i,
            forall|j: int|
                0 <= j < i ==> (#[trigger] fields@[j]).0@ == required@[j].0@ && conforms(
                    required@[j].1,
                    fields@[j].1,
                ),
        decreases required@.len() - i,
    {
        proof {
            lemma_entry_decreases(*required, i as int);
        }
        let val = fuzz(rng, &required[i].1);
        let key = required[i].0.clone();
        fields.push((key, val));
        i += 1;
    }
    proof {
        assert forall|j1: int, j2: int| 0 <= j1 < j2 < fields@.len() implies (
        #[trigger] fields@[j1]).0@ != (#[trigger] fields@[j2]).0@ by {
            assert(fields@[j1].0@ == required@[j1].0@);
            assert(fields@[j2].0@ == required@[j2].0@);
        }
    }
    let mut o: usize = 0;
    while o < optional.len()
        invariant
            o <= optional@.len(),
            fields@.len() >= required@.len(),
            keys_unique(fields@),
            forall|j: int|
                0 <= j < required@.len() ==> (#[trigger] fields@[j]).0@ == required@[j].0@
                    && conforms(required@[j].1, fields@[j].1),
            forall|j: int|
                required@.len() <= j < fields@.len() ==> field_conforming_upto(
                    *optional,
                    o as int,
                    #[trigger] fields@[j],
                ),
        decreases optional@.len() - o,
    {
        let coin = random_bool(rng);
        if coin {
            proof {
                lemma_entry_decreases(*optional, o as int);
            }
            let val = fuzz(rng, &optional[o].1);
            let key = optional[o].0.clone();
            fields.push((key, val));
            proof {
                let n = fields@.len() - 1;
                assert(fields@[n].0@ == (#[trigger] optional@[o as int]).0@ && conforms(
                    optional@[o as int].1,
                    fields@[n].1,
                ));
                assert(field_conforming_upto(*optional, o + 1 as int, fields@[n]));
                assert forall|j: int| 0 <= j < n implies (#[trigger] fields@[j]).0@
                    != fields@[n].0@ by {
                    if j < required@.len() {
                        assert(!has_key(optional@, (#[trigger] required@[j]).0@));
                    } else {
                        assert(field_conforming_upto(*optional, o as int, fields@[j]));
                        let x = choose|x: int|
                            0 <= x < o && x < optional@.len() && fields@[j].0@ == (
                            #[trigger] optional@[x]).0@ && conforms(optional@[x].1, fields@[j].1);
                        assert(optional@[x].0@ != optional@[o as int].0@);
                    }
                }
                assert forall|j: int|
                    required@.len() <= j < fields@.len() implies field_conforming_upto(
                    *optional,
                    o + 1 as int,
                    #[trigger] fields@[j],
                ) by {
                    if j < n {
                        assert(field_conforming_upto(*optional, o as int, fields@[j]));
                        let x = choose|x: int|
                            0 <= x < o && x < optional@.len() && fields@[j].0@ == (
                            #[trigger] optional@[x]).0@ && conforms(optional@[x].1, fields@[j].1);
                        assert(0 <= x < o + 1 && x < optional@.len() && fields@[j].0@
                            == optional@[x].0@ && conforms(optional@[x].1, fields@[j].1));
                    }
                }
            }
        }
        o += 1;
    }
    proof {
        assert forall|i2: int| 0 <= i2 < required@.len() implies entry_present(
            #[trigger] required@[i2],
            fields@,
        ) by {
            assert(0 <= i2 < fields@.len() && (#[trigger] fields@[i2]).0@ == required@[i2].0@
                && conforms(required@[i2].1, fields@[i2].1));
        }
        assert forall|j: int| 0 <= j < fields@.len() implies {
            ||| (None::<Seq<char>> matches Some(e) && (#[trigger] fields@[j]).0@ == e)
            ||| field_conforming(*required, fields@[j])
            ||| field_conforming(*optional, fields@[j])
        } by {
            if j < required@.len() {
                assert(0 <= j < required@.len() && fields@[j].0@ == (#[trigger] required@[j]).0@
                    && conforms(required@[j].1, fields@[j].1));
                assert(field_conforming_upto(*required, required@.len() as int, fields@[j]));
            } else {
                assert(field_conforming_upto(*optional, optional@.len() as int, fields@[j]));
            }
        }
        assert(obj_conforms(*required, *optional, fields@, None));
    }
    Value::Object(fields)
}

/// The values rule: a random length below eight, then one freshly drawn
/// string key and one generated value per position; a repeated key
/// overwrites the earlier binding, as a map would.
#[verifier::loop_isolation(false)]
pub fn fuzz_values(rng: &mut StdRng, sub: &SchemaNode) -> (v: Value)
    requires
        wf(*sub),
    ensures
        (v matches Value::Object(fields) && {
            &&& fields@.len() < 8
            &&& keys_unique(fields@)
            &&& forall|j: int| 0 <= j < fields@.len() ==> gen_string_ok((#[trigger] fields@[j]).0@)
            &&& forall|j: int| 0 <= j < fields@.len() ==> conforms(*sub, (#[trigger] fields@[j]).1)
        }),
    decreases *sub, 2int,
{
    let n = random_below(rng, 8);
    let mut fields: Vec<(String, Value)> = Vec::new();
    let mut k: usize = 0;
    while k < n
        invariant
            wf(*sub),
            k <= n < 8,
            fields@.len() <= k,
            keys_unique(fields@),
            forall|j: int| 0 <= j < fields@.len() ==> gen_string_ok((#[trigger] fields@[j]).0@),
            forall|j: int| 0 <= j < fields@.len() ==> conforms(*sub, (#[trigger] fields@[j]).1),
        decreases n - k,
    {
        let key = random_string(rng);
        let val = fuzz(rng, sub);
        obj_insert(&mut fields, key, val);
        k += 1;
    }
    Value::Object(fields)
}

/// The discriminator rule: choose one mapping entry uniformly, generate an
/// object from its properties schema, then set the tag field to the chosen
/// key.
pub fn fuzz_discr(rng: &mut StdRng, tag: &String, mapping: &Vec<(String, SchemaNode)>) -> (v:
    Value)
    requires
        mapping@.len() > 0,
        keys_unique(mapping@),
        forall|m: int| 0 <= m < mapping@.len() ==> wf_mapped(tag@, (#[trigger] mapping@[m]).1),
    ensures
        (v matches Value::Object(fields) && exists|m: int|
            0 <= m < mapping@.len() && disc_conforms(tag@, #[trigger] mapping@[m], fields@)),
    decreases *mapping, 2int,
{
    let m = random_below(rng, mapping.len());
    proof {
        assert(wf_mapped(tag@, mapping@[m as int].1));
        assert(decreases_to!(*mapping => mapping@[m as int]));
        lemma_entry_decreases(*mapping, m as int);
    }
    let chosen = &mapping[m];
    let obj = match &chosen.1 {
        SchemaNode::Properties(required, optional) => fuzz_props(rng, required, optional),
        _ => unreached(),
    };
    let ghost required_g = mapping@[m as int].1->Properties_0;
    let ghost optional_g = mapping@[m as int].1->Properties_1;
    let mut fields = match obj {
        Value::Object(f) => f,
        _ => unreached(),
    };
    let ghost before = fields@;
    let tag_val = Value::Str(chosen.0.clone());
    obj_insert(&mut fields, tag.clone(), tag_val);
    proof {
        lemma_tag_insert(tag@, required_g, optional_g, before, fields@, mapping@[m as int].0@);
        assert(disc_conforms(tag@, mapping@[m as int], fields@));
    }
    Value::Object(fields)
}

/// Setting the tag field of an object that follows a properties form whose
/// field names avoid the tag leaves an object that follows the form with
/// the tag excluded, still carries every earlier binding, and carries the
/// tag bound to the given string.
proof fn lemma_tag_insert(
    tag: Seq<char>,
    required: Vec<(String, SchemaNode)>,
    optional: Vec<(String, SchemaNode)>,
    before: Seq<(String, Value)>,
    after: Seq<(String, Value)>,
    tag_text: Seq<char>,
)
    requires
        obj_conforms(required, optional, before, None),
        !has_key(required@, tag),
        !has_key(optional@, tag),
        keys_unique(after),
        has_key(after, tag),
        forall|j: int|
            0 <= j < after.len() && (#[trigger] after[j]).0@ == tag ==> (after[j].1
                matches Value::Str(text) && text@ == tag_text),
        forall|j: int|
            0 <= j < after.len() ==> ((#[trigger] after[j]).0@ == tag) || (exists|i: int|
                0 <= i < before.len() && after[j] == (#[trigger] before[i])),
        forall|i: int| 0 <= i < before.len() ==> has_key(after, (#[trigger] before[i]).0@),
    ensures
        obj_conforms(required, optional, after, Some(tag)),
        exists|j: int|
            0 <= j < after.len() && (#[trigger] after[j]).0@ == tag && (after[j].1
                matches Value::Str(text) && text@ == tag_text),
{
    // The tag is bound to the tag text.
    let jt = choose|j: int| 0 <= j < after.len() && (#[trigger] after[j]).0@ == tag;
    assert(after[jt].0@ == tag && (after[jt].1 matches Value::Str(text) && text@ == tag_text));
    // Every required field is still present, bound to its old conforming value.
    assert forall|i: int| 0 <= i < required@.len() implies entry_present(
        #[trigger] required@[i],
        after,
    ) by {
        assert(entry_present(required@[i], before));
        let k = required@[i].0@;
        let jb = choose|jb: int|
            0 <= jb < before.len() && (#[trigger] before[jb]).0@ == k && conforms(
                required@[i].1,
                before[jb].1,
            );
        assert(has_key(after, before[jb].0@));
        let ja = choose|ja: int| 0 <= ja < after.len() && (#[trigger] after[ja]).0@ == k;
        assert(after[ja].0@ != tag);
        let ib = choose|ib: int| 0 <= ib < before.len() && after[ja] == (#[trigger] before[ib]);
        assert(before[ib].0@ == k);
        assert(ib == jb);
        assert(after[ja].1 == before[jb].1);
        assert(0 <= ja < after.len() && after[ja].0@ == required@[i].0@ && conforms(
            required@[i].1,
            after[ja].1,
        ));
    }
    // Every field the object carries is the tag or an old, governed field.
    assert forall|j: int| 0 <= j < after.len() implies {
        ||| (Some(tag) matches Some(e) && (#[trigger] after[j]).0@ == e)
        ||| field_conforming(required, after[j])
        ||| field_conforming(optional, after[j])
    } by {
        if after[j].0@ != tag {
            let ib = choose|ib: int| 0 <= ib < before.len() && after[j] == (#[trigger] before[ib]);
            assert(field_conforming(required, before[ib]) || field_conforming(
                optional,
                before[ib],
            ));
            assert(after[j] == before[ib]);
        }
    }
    assert(obj_conforms(required, optional, after, Some(tag)));
}

} // verus!
