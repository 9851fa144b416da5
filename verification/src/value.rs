//! The JSON-like values the generator produces.

use vstd::prelude::*;
use crate::schema::{has_key, keys_unique};

verus! {

/// A dynamically typed JSON-like value. A number is carried as the bit
/// pattern of a 64-bit IEEE 754 value, so that callers that print JSON can
/// reinterpret it; the generator itself never reads the bits. An object is
/// a vector of key/value pairs with pairwise distinct keys.
#[derive(Debug, PartialEq)]
pub enum Value {
    Null,
    Bool(bool),
    Number(u64),
    Str(String),
    Array(Vec<Value>),
    Object(Vec<(String, Value)>),
}

/// Relies on std's `String::push`: it appends the given character to the
/// end of the string.
pub assume_specification[ std::string::String::push ](s: &mut std::string::String, c: char)
    ensures
        final(s)@ == old(s)@.push(c),
;

/// Bind `key` to `val` in an object's field list, overwriting the binding
/// already carried under that key if there is one, and appending otherwise:
/// map semantics over a vector of pairs.
pub fn obj_insert(fields: &mut Vec<(String, Value)>, key: String, val: Value)
    requires
        keys_unique(old(fields)@),
    ensures
        keys_unique(final(fields)@),
        old(fields)@.len() <= final(fields)@.len() <= old(fields)@.len() + 1,
        has_key(final(fields)@, key@),
        // `key` is now bound to `val`, and to nothing else.
        forall|j: int|
            0 <= j < final(fields)@.len() && (#[trigger] final(fields)@[j]).0@ == key@ ==> final(fields)@[j].1 == val,
        // Every field is an untouched old field or the new binding.
        forall|j: int|
            0 <= j < final(fields)@.len() ==> ((#[trigger] final(fields)@[j]).0@ == key@ && final(fields)@[j].1 == val)
                || (exists|i: int|
                0 <= i < old(fields)@.len() && final(fields)@[j] == (#[trigger] old(fields)@[i])),
        // Every old key is still bound.
        forall|i: int|
            0 <= i < old(fields)@.len() ==> has_key(final(fields)@, (#[trigger] old(fields)@[i]).0@),
{
    let mut idx: usize = 0;
    while idx < fields.len()
        invariant
            keys_unique(fields@),
            idx <= fields@.len(),
            fields@ == old(fields)@,
            forall|j: int| 0 <= j < idx ==> (#[trigger] fields@[j]).0@ != key@,
        decreases fields@.len() - idx,
    {
        if fields[idx].0 == key {
            fields.set(idx, (key, val));
            proof {
                assert(fields@[idx as int].0@ == key@);
                assert forall|j: int|
                    0 <= j < fields@.len() && j != idx implies fields@[j] == old(fields)@[j] by {};
                assert forall|i: int| 0 <= i < old(fields)@.len() implies has_key(
                    fields@,
                    (#[trigger] old(fields)@[i]).0@,
                ) by {
                    if i == idx {
                        assert(fields@[idx as int].0@ == old(fields)@[i].0@);
                    } else {
                        assert(fields@[i].0@ == old(fields)@[i].0@);
                    }
                }
                assert forall|j: int|
                    0 <= j < fields@.len() && !((#[trigger] fields@[j]).0@ == key@
                        && fields@[j].1 == val) implies (exists|i: int|
                    0 <= i < old(fields)@.len() && fields@[j] == (#[trigger] old(
                        fields,
                    )@[i])) by {
                    assert(fields@[j] == old(fields)@[j]);
                }
            }
            return ;
        }
        idx += 1;
    }
    fields.push((key, val));
    proof {
        let n = old(fields)@.len() as int;
        assert(fields@[n].0@ == key@);
        assert forall|i: int| 0 <= i < old(fields)@.len() implies has_key(
            fields@,
            (#[trigger] old(fields)@[i]).0@,
        ) by {
            assert(fields@[i] == old(fields)@[i]);
        }
        assert forall|j: int|
            0 <= j < fields@.len() && !((#[trigger] fields@[j]).0@ == key@ && fields@[j].1
                == val) implies (exists|i: int|
            0 <= i < old(fields)@.len() && fields@[j] == (#[trigger] old(fields)@[i])) by {
            assert(fields@[j] == old(fields)@[j]);
        }
    }
}

} // verus!
