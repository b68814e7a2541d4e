//! A plain model of JSON values, the payload type of every message.
//!
//! The transport hands the protocol layer already-parsed payloads in this
//! form; the protocol logic only ever inspects values of this type.

use vstd::prelude::*;

use crate::text::str_eq;

verus! {

/// An untyped JSON payload. Numbers are restricted to integers, which is all
/// the protocol ever carries; an object is an ordered list of key/value
/// pairs.
#[derive(Debug, PartialEq, Eq)]
pub enum JsonValue {
    Null,
    Bool(bool),
    Int(i64),
    Str(String),
    Arr(Vec<JsonValue>),
    Obj(Vec<(String, JsonValue)>),
}

/// The value of the first entry of `entries` whose key is `key`, if any.
pub open spec fn obj_get_spec(entries: Seq<(String, JsonValue)>, key: Seq<char>) -> Option<JsonValue>
    decreases entries.len(),
{
    if entries.len() == 0 {
        None
    } else if entries[0].0@ == key {
        Some(entries[0].1)
    } else {
        obj_get_spec(entries.skip(1), key)
    }
}

/// Looks a key up in an object's entry list; the first match wins.
pub fn obj_get<'a>(entries: &'a Vec<(String, JsonValue)>, key: &str) -> (r: Option<&'a JsonValue>)
    ensures
        match r {
            Some(v) => obj_get_spec(entries@, key@) == Some(*v),
            None => obj_get_spec(entries@, key@) is None,
        },
{
    let mut i: usize = 0;
    assert(entries@.skip(0) =~= entries@);
    while i < entries.len()
        invariant
            i <= entries.len(),
            obj_get_spec(entries@, key@) == obj_get_spec(entries@.skip(i as int), key@),
        decreases entries.len() - i,
    {
        assert(entries@.skip(i as int)[0] == entries@[i as int]);
        if str_eq(entries[i].0.as_str(), key) {
            return Some(&entries[i].1);
        }
        assert(entries@.skip(i as int).skip(1) =~= entries@.skip(i + 1));
        i = i + 1;
    }
    None
}

} // verus!
