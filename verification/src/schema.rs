//! The schema tree that drives generation.

use vstd::prelude::*;

verus! {

/// The primitive types a `SchemaNode::Type` node can ask for.
#[derive(Clone, Copy, PartialEq, Eq, Structural, Debug)]
pub enum Type {
    Boolean,
    Number,
    String,
    Timestamp,
}

/// One node of a parsed schema tree. Key/schema pairs play the role of
/// string-keyed mappings; well-formedness (`wf`) asks that their keys be
/// distinct.
#[derive(Debug)]
pub enum SchemaNode {
    /// Matched by the null value alone (the generator produces nothing else).
    Empty,
    /// A primitive leaf.
    Type(Type),
    /// One of a non-empty set of string values.
    Enum(Vec<String>),
    /// A homogeneous array whose items follow the child schema.
    Elements(Box<SchemaNode>),
    /// An object with required fields (always present) and optional fields
    /// (each independently present or absent).
    Properties(Vec<(String, SchemaNode)>, Vec<(String, SchemaNode)>),
    /// A map from arbitrary short printable strings to values that follow
    /// the child schema.
    Values(Box<SchemaNode>),
    /// A tagged union: the tag field names which mapping entry the rest of
    /// the object follows.
    Discriminator(String, Vec<(String, SchemaNode)>),
}

/// Does some entry of `entries` carry the key `k`?
pub open spec fn has_key<T>(entries: Seq<(String, T)>, k: Seq<char>) -> bool {
    exists|i: int| 0 <= i < entries.len() && (#[trigger] entries[i]).0@ == k
}

/// Are the keys of `entries` pairwise distinct?
pub open spec fn keys_unique<T>(entries: Seq<(String, T)>) -> bool {
    forall|i: int, j: int|
        0 <= i < j < entries.len() ==> (#[trigger] entries[i]).0@ != (#[trigger] entries[j]).0@
}

/// Well-formedness of a schema node: the invariants the schema model is
/// expected to establish before generation ever sees the tree. Enum value
/// sets are non-empty and duplicate-free; required/optional property names
/// are distinct and do not overlap; a discriminator's mapping is non-empty,
/// maps each tag value to a properties node, and its tag field name does
/// not collide with any property of any mapped node.
pub open spec fn wf(s: SchemaNode) -> bool
    decreases s, 1int,
    via wf_decreases
{
    match s {
        SchemaNode::Empty => true,
        SchemaNode::Type(_) => true,
        SchemaNode::Enum(vals) => {
            &&& vals@.len() > 0
            &&& forall|i: int, j: int|
                0 <= i < j < vals@.len() ==> (#[trigger] vals@[i])@ != (#[trigger] vals@[j])@
        },
        SchemaNode::Elements(sub) => wf(*sub),
        SchemaNode::Properties(required, optional) => wf_props(required, optional),
        SchemaNode::Values(sub) => wf(*sub),
        SchemaNode::Discriminator(tag, mapping) => {
            &&& mapping@.len() > 0
            &&& keys_unique(mapping@)
            &&& forall|m: int|
                0 <= m < mapping@.len() ==> wf_mapped(tag@, (#[trigger] mapping@[m]).1)
        },
    }
}

/// Well-formedness of a properties form, split out so a discriminator's
/// mapped nodes can state it too.
pub open spec fn wf_props(
    required: Vec<(String, SchemaNode)>,
    optional: Vec<(String, SchemaNode)>,
) -> bool
    decreases SchemaNode::Properties(required, optional), 0int,
    via wf_props_decreases
{
    &&& keys_unique(required@)
    &&& keys_unique(optional@)
    &&& forall|i: int| 0 <= i < required@.len() ==> !has_key(optional@, (#[trigger] required@[i]).0@)
    &&& forall|i: int| 0 <= i < required@.len() ==> wf((#[trigger] required@[i]).1)
    &&& forall|i: int| 0 <= i < optional@.len() ==> wf((#[trigger] optional@[i]).1)
}

/// A discriminator's mapped node must be a properties node none of whose
/// field names is the tag itself, so that setting the tag field never
/// disturbs a generated property.
pub open spec fn wf_mapped(tag: Seq<char>, sub: SchemaNode) -> bool
    decreases sub, 1int,
{
    &&& sub matches SchemaNode::Properties(required, optional)
    &&& wf_props(required, optional)
    &&& !has_key(required@, tag)
    &&& !has_key(optional@, tag)
}

/// Does some entry of `entries` carry the key `*k`? The executable side of
/// `has_key`.
#[verifier::loop_isolation(false)]
pub fn contains_key<T>(entries: &Vec<(String, T)>, k: &String) -> (r: bool)
    ensures
        r == has_key(entries@, k@),
{
    let mut i: usize = 0;
    while i < entries.len()
        invariant
            i <= entries@.len(),
            forall|j: int| 0 <= j < i ==> (#[trigger] entries@[j]).0@ != k@,
        decreases entries@.len() - i,
    {
        if entries[i].0 == *k {
            proof {
                assert((#[trigger] entries@[i as int]).0@ == k@);
            }
            return true;
        }
        i += 1;
    }
    false
}

/// Are the keys of `entries` pairwise distinct? The executable side of
/// `keys_unique`.
#[verifier::loop_isolation(false)]
pub fn keys_unique_check<T>(entries: &Vec<(String, T)>) -> (r: bool)
    ensures
        r == keys_unique(entries@),
{
    let mut i: usize = 0;
    while i < entries.len()
        invariant
            i <= entries@.len(),
            forall|a: int, b: int|
                0 <= a < b < entries@.len() && a < i ==> (#[trigger] entries@[a]).0@ != (
                #[trigger] entries@[b]).0@,
        decreases entries@.len() - i,
    {
        let mut j: usize = i + 1;
        while j < entries.len()
            invariant
                i < j <= entries@.len(),
                i < entries@.len(),
                forall|b: int| i < b < j ==> (#[trigger] entries@[b]).0@ != entries@[i as int].0@,
            decreases entries@.len() - j,
        {
            if entries[i].0 == entries[j].0 {
                proof {
                    assert((#[trigger] entries@[i as int]).0@ == (
                    #[trigger] entries@[j as int]).0@);
                }
                return false;
            }
            j += 1;
        }
        i += 1;
    }
    true
}

/// Are the strings pairwise distinct, as enum members must be?
#[verifier::loop_isolation(false)]
pub fn strings_unique_check(vals: &Vec<String>) -> (r: bool)
    ensures
        r == (forall|i: int, j: int|
            0 <= i < j < vals@.len() ==> (#[trigger] vals@[i])@ != (#[trigger] vals@[j])@),
{
    let mut i: usize = 0;
    while i < vals.len()
        invariant
            i <= vals@.len(),
            forall|a: int, b: int|
                0 <= a < b < vals@.len() && a < i ==> (#[trigger] vals@[a])@ != (
                #[trigger] vals@[b])@,
        decreases vals@.len() - i,
    {
        let mut j: usize = i + 1;
        while j < vals.len()
            invariant
                i < j <= vals@.len(),
                i < vals@.len(),
                forall|b: int| i < b < j ==> (#[trigger] vals@[b])@ != vals@[i as int]@,
            decreases vals@.len() - j,
        {
            if vals[i] == vals[j] {
                proof {
                    assert((#[trigger] vals@[i as int])@ == (#[trigger] vals@[j as int])@);
                }
                return false;
            }
            j += 1;
        }
        i += 1;
    }
    true
}

/// Decide well-formedness of a schema node: the executable side of `wf`,
/// for callers that receive a tree from outside and must reject a malformed
/// one before generating from it.
#[verifier::loop_isolation(false)]
pub fn is_wf(s: &SchemaNode) -> (r: bool)
    ensures
        r == wf(*s),
    decreases *s, 1int,
{
    match s {
        SchemaNode::Empty => true,
        SchemaNode::Type(_) => true,
        SchemaNode::Enum(vals) => vals.len() > 0 && strings_unique_check(vals),
        SchemaNode::Elements(sub) => is_wf(&**sub),
        SchemaNode::Properties(required, optional) => is_wf_props(required, optional),
        SchemaNode::Values(sub) => is_wf(&**sub),
        SchemaNode::Discriminator(tag, mapping) => {
            if mapping.len() == 0 {
                return false;
            }
            if !keys_unique_check(mapping) {
                return false;
            }
            let mut m: usize = 0;
            while m < mapping.len()
                invariant
                    m <= mapping@.len(),
                    wf(*s) == (forall|x: int|
                        0 <= x < mapping@.len() ==> wf_mapped(tag@, (#[trigger] mapping@[x]).1)),
                    forall|x: int| 0 <= x < m ==> wf_mapped(tag@, (#[trigger] mapping@[x]).1),
                decreases mapping@.len() - m,
            {
                proof {
                    assert(decreases_to!(*s => *mapping));
                    lemma_entry_decreases(*mapping, m as int);
                }
                let entry_ok = match &mapping[m].1 {
                    SchemaNode::Properties(required, optional) => is_wf_props(required, optional)
                        && !contains_key(required, tag) && !contains_key(optional, tag),
                    _ => false,
                };
                if !entry_ok {
                    proof {
                        assert(!wf_mapped(tag@, (#[trigger] mapping@[m as int]).1));
                    }
                    return false;
                }
                m += 1;
            }
            true
        },
    }
}

/// Decide well-formedness of a properties form: the executable side of
/// `wf_props`.
#[verifier::loop_isolation(false)]
pub fn is_wf_props(
    required: &Vec<(String, SchemaNode)>,
    optional: &Vec<(String, SchemaNode)>,
) -> (r: bool)
    ensures
        r == wf_props(*required, *optional),
    decreases SchemaNode::Properties(*required, *optional), 0int,
{
    let ghost node = SchemaNode::Properties(*required, *optional);
    proof {
        if let SchemaNode::Properties(req, opt) = node {
            assert(decreases_to!(node => req));
            assert(decreases_to!(node => opt));
        }
    }
    if !keys_unique_check(required) {
        return false;
    }
    if !keys_unique_check(optional) {
        return false;
    }
    let mut i: usize = 0;
    while i < required.len()
        invariant
            i <= required@.len(),
            forall|x: int|
                0 <= x < i ==> !has_key(optional@, (#[trigger] required@[x]).0@) && wf(
                    (#[trigger] required@[x]).1,
                ),
        decreases required@.len() - i,
    {
        if contains_key(optional, &required[i].0) {
            return false;
        }
        proof {
            lemma_entry_decreases(*required, i as int);
        }
        if !is_wf(&required[i].1) {
            return false;
        }
        i += 1;
    }
    let mut o: usize = 0;
    while o < optional.len()
        invariant
            o <= optional@.len(),
            forall|x: int|
                0 <= x < required@.len() ==> !has_key(optional@, (#[trigger] required@[x]).0@)
                    && wf((#[trigger] required@[x]).1),
            forall|x: int| 0 <= x < o ==> wf((#[trigger] optional@[x]).1),
        decreases optional@.len() - o,
    {
        proof {
            lemma_entry_decreases(*optional, o as int);
        }
        if !is_wf(&optional[o].1) {
            return false;
        }
        o += 1;
    }
    true
}

/// Each entry of a key/schema vector stands below the vector itself in the
/// termination order, and so below any node that holds the vector as a field.
pub proof fn lemma_entry_decreases<T>(entries: Vec<(String, T)>, i: int)
    requires
        0 <= i < entries@.len(),
    ensures
        decreases_to!(entries => entries@[i].1),
{
    assert(decreases_to!(entries => entries@[i]));
    assert(decreases_to!(entries@[i] => entries@[i].1));
}

#[via_fn]
proof fn wf_decreases(s: SchemaNode) {
    if let SchemaNode::Discriminator(tag, mapping) = s {
        assert forall|m: int| 0 <= m < mapping@.len() implies decreases_to!(
            s => (#[trigger] mapping@[m]).1,
        ) by {
            assert(decreases_to!(s => mapping));
            lemma_entry_decreases(mapping, m);
        }
    }
}

#[via_fn]
proof fn wf_props_decreases(
    required: Vec<(String, SchemaNode)>,
    optional: Vec<(String, SchemaNode)>,
) {
    let node = SchemaNode::Properties(required, optional);
    if let SchemaNode::Properties(req, opt) = node {
        assert forall|i: int| 0 <= i < required@.len() implies decreases_to!(
            node => (#[trigger] required@[i]).1,
        ) by {
            assert(decreases_to!(node => req));
            lemma_entry_decreases(required, i);
        }
        assert forall|i: int| 0 <= i < optional@.len() implies decreases_to!(
            node => (#[trigger] optional@[i]).1,
        ) by {
            assert(decreases_to!(node => opt));
            lemma_entry_decreases(optional, i);
        }
    }
}

} // verus!
