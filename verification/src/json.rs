//! A JSON document model: the values the library reads from and writes to
//! JSON bodies, with lookups stated over the model.
use vstd::prelude::*;

use crate::text::{chars_eq_str, chars_of, owned};

verus! {

/// A JSON value. Objects keep their members in order; a lookup by key finds
/// the first member with that key.
#[derive(Debug)]
pub enum JsonValue {
    Null,
    Bool(bool),
    /// A number that is an integer in the range of `i64`.
    Int(i64),
    /// Any other number, by its JSON text.
    Number(String),
    Str(String),
    Array(Vec<JsonValue>),
    Object(Vec<(String, JsonValue)>),
}

/// The index of the first member of `es`, at or after `i`, whose key is `key`.
pub open spec fn key_index_from(es: Seq<(String, JsonValue)>, key: Seq<char>, i: int) -> Option<
    int,
>
    decreases es.len() - i,
{
    if i < 0 || i >= es.len() {
        None
    } else if es[i].0@ == key {
        Some(i)
    } else {
        key_index_from(es, key, i + 1)
    }
}

pub proof fn lemma_key_index_from(es: Seq<(String, JsonValue)>, key: Seq<char>, i: int)
    ensures
        key_index_from(es, key, i) matches Some(k) ==> i <= k < es.len() && es[k].0@ == key,
        key_index_from(es, key, i) is None && 0 <= i ==> forall|k: int|
            i <= k < es.len() ==> #[trigger] es[k].0@ != key,
    decreases es.len() - i,
{
    if 0 <= i < es.len() && es[i].0@ != key {
        lemma_key_index_from(es, key, i + 1);
    }
}

/// A key that no member has is not found.
pub proof fn lemma_key_absent(es: Seq<(String, JsonValue)>, key: Seq<char>, i: int)
    requires
        forall|k: int| 0 <= k < es.len() ==> #[trigger] es[k].0@ != key,
    ensures
        key_index_from(es, key, i) is None,
    decreases es.len() - i,
{
    if 0 <= i < es.len() {
        lemma_key_absent(es, key, i + 1);
    }
}

/// The member of `v` with key `key`, where `v` is an object that has one.
pub open spec fn field(v: JsonValue, key: Seq<char>) -> Option<JsonValue> {
    match v {
        JsonValue::Object(es) => match key_index_from(es@, key, 0) {
            Some(k) => Some(es@[k].1),
            None => None,
        },
        _ => None,
    }
}

/// `field` through an optional value.
pub open spec fn at(v: Option<JsonValue>, key: Seq<char>) -> Option<JsonValue> {
    match v {
        Some(x) => field(x, key),
        None => None,
    }
}

/// The element of an array at index `i`.
pub open spec fn item(v: Option<JsonValue>, i: int) -> Option<JsonValue> {
    match v {
        Some(JsonValue::Array(a)) => if 0 <= i < a@.len() {
            Some(a@[i])
        } else {
            None
        },
        _ => None,
    }
}

/// The text of a string value.
pub open spec fn str_of(v: Option<JsonValue>) -> Option<Seq<char>> {
    match v {
        Some(JsonValue::Str(s)) => Some(s@),
        _ => None,
    }
}

/// The elements of an array value.
pub open spec fn array_of(v: Option<JsonValue>) -> Option<Seq<JsonValue>> {
    match v {
        Some(JsonValue::Array(a)) => Some(a@),
        _ => None,
    }
}

/// The number of an integer value.
pub open spec fn int_of(v: Option<JsonValue>) -> Option<i64> {
    match v {
        Some(JsonValue::Int(n)) => Some(n),
        _ => None,
    }
}

/// The first member of `es`, at or after `from`, with key `key`.
fn find_key(es: &Vec<(String, JsonValue)>, key: &[char], from: usize) -> (r: Option<usize>)
    ensures
        r matches Some(k) ==> key_index_from(es@, key@, from as int) == Some(k as int),
        r is None ==> key_index_from(es@, key@, from as int) is None,
    decreases es.len() - from,
{
    if from >= es.len() {
        return None;
    }
    if chars_eq_str(key, es[from].0.as_str()) {
        Some(from)
    } else {
        find_key(es, key, from + 1)
    }
}

impl JsonValue {
    /// The member with key `key`, where this is an object that has one.
    pub fn get(&self, key: &str) -> (r: Option<&JsonValue>)
        ensures
            r matches Some(x) ==> field(*self, key@) == Some(*x),
            r is None ==> field(*self, key@) is None,
    {
        match self {
            JsonValue::Object(es) => {
                let k = chars_of(key);
                let found = find_key(es, &k, 0);
                proof {
                    lemma_key_index_from(es@, k@, 0);
                }
                match found {
                    Some(i) => Some(&es[i].1),
                    None => None,
                }
            },
            _ => None,
        }
    }

    /// The text, where this is a string.
    pub fn as_str(&self) -> (r: Option<&str>)
        ensures
            r matches Some(s) ==> str_of(Some(*self)) == Some(s@),
            r is None ==> str_of(Some(*self)) is None,
    {
        match self {
            JsonValue::Str(s) => Some(s.as_str()),
            _ => None,
        }
    }

    /// The elements, where this is an array.
    pub fn as_array(&self) -> (r: Option<&Vec<JsonValue>>)
        ensures
            r matches Some(a) ==> array_of(Some(*self)) == Some(a@),
            r is None ==> array_of(Some(*self)) is None,
    {
        match self {
            JsonValue::Array(a) => Some(a),
            _ => None,
        }
    }

    /// The number, where this is an integer in the range of `i64`.
    pub fn as_i64(&self) -> (r: Option<i64>)
        ensures
            r == int_of(Some(*self)),
    {
        match self {
            JsonValue::Int(n) => Some(*n),
            _ => None,
        }
    }

    /// Takes the member with key `key` out of this object.
    pub fn into_field(self, key: &str) -> (r: Option<JsonValue>)
        ensures
            r == field(self, key@),
    {
        match self {
            JsonValue::Object(es) => {
                let k = chars_of(key);
                let found = find_key(&es, &k, 0);
                proof {
                    lemma_key_index_from(es@, k@, 0);
                }
                match found {
                    Some(i) => {
                        let mut es = es;
                        let (_, v) = es.remove(i);
                        Some(v)
                    },
                    None => None,
                }
            },
            _ => None,
        }
    }

    /// Takes the elements out of this array.
    pub fn into_array(self) -> (r: Option<Vec<JsonValue>>)
        ensures
            r matches Some(a) ==> array_of(Some(self)) == Some(a@),
            r is None ==> array_of(Some(self)) is None,
    {
        match self {
            JsonValue::Array(a) => Some(a),
            _ => None,
        }
    }

    /// A string value holding `s`.
    pub fn string(s: &str) -> (r: JsonValue)
        ensures
            r matches JsonValue::Str(t) && t@ == s@,
    {
        JsonValue::Str(owned(s))
    }
}

} // verus!
