//! JSON values as the editor reads them from a language server.

use vstd::prelude::*;

use crate::chars::{chars_eq, str_to_chars};

verus! {

/// A JSON value. An object keeps its members in order; a key is looked up
/// at its first member.
#[derive(Debug)]
pub enum JsonValue {
    Null,
    Bool(bool),
    /// A number: its value where it is an integer that fits in `u64`, and
    /// its text.
    Number { value: Option<u64>, text: String },
    String(String),
    Array(Vec<JsonValue>),
    Object(Vec<(String, JsonValue)>),
}

/// The value of the first member named `key`.
pub open spec fn member(entries: Seq<(String, JsonValue)>, key: Seq<char>) -> Option<JsonValue>
    decreases entries.len(),
{
    if entries.len() == 0 {
        None
    } else if entries[0].0@ == key {
        Some(entries[0].1)
    } else {
        member(entries.drop_first(), key)
    }
}

/// `value.get(key)`: the member of an object; nothing for other values.
pub open spec fn spec_get(v: JsonValue, key: Seq<char>) -> Option<JsonValue> {
    match v {
        JsonValue::Object(entries) => member(entries@, key),
        _ => None,
    }
}

/// `get` on an optional value.
pub open spec fn get_in(v: Option<JsonValue>, key: Seq<char>) -> Option<JsonValue> {
    match v {
        Some(x) => spec_get(x, key),
        None => None,
    }
}

/// `as_u64` on an optional value.
pub open spec fn u64_of(v: Option<JsonValue>) -> Option<u64> {
    match v {
        Some(JsonValue::Number { value, .. }) => value,
        _ => None,
    }
}

/// `as_str` on an optional value.
pub open spec fn str_of(v: Option<JsonValue>) -> Option<Seq<char>> {
    match v {
        Some(JsonValue::String(s)) => Some(s@),
        _ => None,
    }
}

/// `as_array` on an optional value.
pub open spec fn array_of(v: Option<JsonValue>) -> Option<Seq<JsonValue>> {
    match v {
        Some(JsonValue::Array(items)) => Some(items@),
        _ => None,
    }
}

/// The first of two optional values that is there.
pub open spec fn or_else<T>(a: Option<T>, b: Option<T>) -> Option<T> {
    match a {
        Some(x) => Some(x),
        None => b,
    }
}

impl JsonValue {
    /// The member `key` of an object.
    pub fn get(&self, key: &str) -> (r: Option<&JsonValue>)
        ensures
            match r {
                Some(x) => spec_get(*self, key@) == Some(*x),
                None => spec_get(*self, key@) is None,
            },
    {
        match self {
            JsonValue::Object(entries) => {
                let k = str_to_chars(key);
                let mut i: usize = 0;
                assert(entries@.skip(0) =~= entries@);
                while i < entries.len()
                    invariant
                        i <= entries@.len(),
                        k@ == key@,
                        member(entries@, key@) == member(entries@.skip(i as int), key@),
                        spec_get(*self, key@) == member(entries@, key@),
                    decreases entries.len() - i,
                {
                    assert(entries@.skip(i as int).drop_first() =~= entries@.skip(i + 1));
                    assert(entries@.skip(i as int)[0] == entries@[i as int]);
                    let name = str_to_chars(entries[i].0.as_str());
                    if chars_eq(&name, &k) {
                        assert(entries@.skip(i as int)[0] == entries@[i as int]);
                        return Some(&entries[i].1);
                    }
                    i = i + 1;
                }
                None
            },
            _ => None,
        }
    }

    /// The value of a number that is an integer fitting in `u64`.
    pub fn as_u64(&self) -> (r: Option<u64>)
        ensures
            r == u64_of(Some(*self)),
    {
        match self {
            JsonValue::Number { value, .. } => *value,
            _ => None,
        }
    }

    /// The text of a string.
    pub fn as_str(&self) -> (r: Option<&str>)
        ensures
            match r {
                Some(s) => str_of(Some(*self)) == Some(s@),
                None => str_of(Some(*self)) is None,
            },
    {
        match self {
            JsonValue::String(s) => Some(s.as_str()),
            _ => None,
        }
    }

    /// The items of an array.
    pub fn as_array(&self) -> (r: Option<&Vec<JsonValue>>)
        ensures
            match r {
                Some(items) => array_of(Some(*self)) == Some(items@),
                None => array_of(Some(*self)) is None,
            },
    {
        match self {
            JsonValue::Array(items) => Some(items),
            _ => None,
        }
    }
}

/// `get` on an optional value.
pub fn get_opt<'a>(v: Option<&'a JsonValue>, key: &str) -> (r: Option<&'a JsonValue>)
    ensures
        match r {
            Some(x) => get_in(opt_val(v), key@) == Some(*x),
            None => get_in(opt_val(v), key@) is None,
        },
{
    match v {
        Some(x) => x.get(key),
        None => None,
    }
}

/// An optional reference as an optional value.
pub open spec fn opt_val(v: Option<&JsonValue>) -> Option<JsonValue> {
    match v {
        Some(x) => Some(*x),
        None => None,
    }
}

/// `as_u64` on an optional value.
pub fn u64_opt(v: Option<&JsonValue>) -> (r: Option<u64>)
    ensures
        r == u64_of(opt_val(v)),
{
    match v {
        Some(x) => x.as_u64(),
        None => None,
    }
}

/// `as_str` on an optional value.
pub fn str_opt(v: Option<&JsonValue>) -> (r: Option<&str>)
    ensures
        match r {
            Some(s) => str_of(opt_val(v)) == Some(s@),
            None => str_of(opt_val(v)) is None,
        },
{
    match v {
        Some(x) => x.as_str(),
        None => None,
    }
}

} // verus!
