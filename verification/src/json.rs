//! A JSON document model and the accessors the usage mapping reads.
//!
//! `JsonValue` holds what a parsed JSON document holds. A number keeps the
//! three shapes a parser distinguishes: a non-negative integer, a negative
//! integer, or a floating-point number (carried as its IEEE-754 bit pattern,
//! which this crate never inspects). An object is its list of entries; keys of
//! a parsed document are distinct, and a lookup finds the first entry with the
//! key.

use vstd::prelude::*;
use crate::text::text_eq;

verus! {

#[derive(Debug)]
pub enum JsonNumber {
    /// A non-negative integer.
    PosInt(u64),
    /// A negative integer.
    NegInt(i64),
    /// A floating-point number, by its bit pattern.
    Float(u64),
}

#[derive(Debug)]
pub enum JsonValue {
    Null,
    Bool(bool),
    Number(JsonNumber),
    Str(String),
    Array(Vec<JsonValue>),
    Object(Vec<(String, JsonValue)>),
}

impl JsonNumber {
    /// The number as an `i64`, where it is an integer in that range.
    pub open spec fn int_value(self) -> Option<i64> {
        match self {
            JsonNumber::PosInt(n) => if n <= i64::MAX as u64 {
                Some(n as i64)
            } else {
                None
            },
            JsonNumber::NegInt(n) => Some(n),
            JsonNumber::Float(_) => None,
        }
    }

    pub fn as_i64(&self) -> (r: Option<i64>)
        ensures
            r == self.int_value(),
    {
        match self {
            JsonNumber::PosInt(n) => {
                if *n <= 9223372036854775807u64 {
                    Some(*n as i64)
                } else {
                    None
                }
            },
            JsonNumber::NegInt(n) => Some(*n),
            JsonNumber::Float(_) => None,
        }
    }
}

/// Entry `i` is the first entry of `entries` whose key is `key`.
pub open spec fn is_first_key(entries: Seq<(String, JsonValue)>, key: Seq<char>, i: int) -> bool {
    &&& 0 <= i < entries.len()
    &&& entries[i].0@ == key
    &&& forall|j: int| 0 <= j < i ==> entries[j].0@ != key
}

/// The value stored under `key` when `v` is an object that has the key.
pub open spec fn lookup(v: JsonValue, key: Seq<char>) -> Option<JsonValue> {
    match v {
        JsonValue::Object(entries) => if exists|i: int| is_first_key(entries@, key, i) {
            Some(entries@[choose|i: int| is_first_key(entries@, key, i)].1)
        } else {
            None
        },
        _ => None,
    }
}

/// `lookup` on an optional value.
pub open spec fn field(o: Option<JsonValue>, key: Seq<char>) -> Option<JsonValue> {
    match o {
        Some(v) => lookup(v, key),
        None => None,
    }
}

/// The characters of a JSON string.
pub open spec fn text_of(o: Option<JsonValue>) -> Option<Seq<char>> {
    match o {
        Some(JsonValue::Str(s)) => Some(s@),
        _ => None,
    }
}

/// A JSON integer that fits in `i64`.
pub open spec fn int_of(o: Option<JsonValue>) -> Option<i64> {
    match o {
        Some(JsonValue::Number(n)) => n.int_value(),
        _ => None,
    }
}

/// A JSON boolean.
pub open spec fn bool_of(o: Option<JsonValue>) -> Option<bool> {
    match o {
        Some(JsonValue::Bool(b)) => Some(b),
        _ => None,
    }
}

/// A JSON number.
pub open spec fn number_of(o: Option<JsonValue>) -> Option<JsonNumber> {
    match o {
        Some(JsonValue::Number(n)) => Some(n),
        _ => None,
    }
}

/// The value an optional reference points at.
pub open spec fn value_of(r: Option<&JsonValue>) -> Option<JsonValue> {
    match r {
        Some(x) => Some(*x),
        None => None,
    }
}

/// The first entry with a given key is unique.
pub proof fn lemma_first_key_unique(entries: Seq<(String, JsonValue)>, key: Seq<char>, i: int, k: int)
    requires
        is_first_key(entries, key, i),
        is_first_key(entries, key, k),
    ensures
        i == k,
{
}

/// A looked-up value is strictly smaller than the object that holds it.
pub proof fn lemma_lookup_decreases(v: JsonValue, key: Seq<char>)
    requires
        lookup(v, key) is Some,
    ensures
        decreases_to!(v => lookup(v, key)->0),
{
    if let JsonValue::Object(entries) = v {
        let i = choose|i: int| is_first_key(entries@, key, i);
        assert(decreases_to!(v => entries));
        assert(decreases_to!(entries => entries@));
        assert(decreases_to!(entries@ => entries@[i]));
        assert(decreases_to!(entries@[i] => entries@[i].1));
    }
}

impl JsonValue {
    /// The value under `key` when `self` is an object holding that key.
    pub fn get(&self, key: &str) -> (r: Option<&JsonValue>)
        ensures
            value_of(r) == lookup(*self, key@),
    {
        match self {
            JsonValue::Object(entries) => {
                let mut i: usize = 0;
                while i < entries.len()
                    invariant
                        *self == JsonValue::Object(*entries),
                        i <= entries@.len(),
                        forall|j: int| 0 <= j < i ==> entries@[j].0@ != key@,
                    decreases entries@.len() - i,
                {
                    if text_eq(entries[i].0.as_str(), key) {
                        proof {
                            assert(is_first_key(entries@, key@, i as int));
                            let k = choose|k: int| is_first_key(entries@, key@, k);
                            lemma_first_key_unique(entries@, key@, i as int, k);
                        }
                        return Some(&entries[i].1);
                    }
                    i = i + 1;
                }
                None
            },
            _ => None,
        }
    }

    /// The characters of a JSON string.
    pub fn as_str(&self) -> (r: Option<&str>)
        ensures
            match r {
                Some(s) => text_of(Some(*self)) == Some(s@),
                None => text_of(Some(*self)) is None,
            },
    {
        match self {
            JsonValue::Str(s) => Some(s.as_str()),
            _ => None,
        }
    }

    /// A JSON integer that fits in `i64`.
    pub fn as_i64(&self) -> (r: Option<i64>)
        ensures
            r == int_of(Some(*self)),
    {
        match self {
            JsonValue::Number(n) => n.as_i64(),
            _ => None,
        }
    }

    /// A JSON boolean.
    pub fn as_bool(&self) -> (r: Option<bool>)
        ensures
            r == bool_of(Some(*self)),
    {
        match self {
            JsonValue::Bool(b) => Some(*b),
            _ => None,
        }
    }

    /// A JSON number.
    pub fn as_number(&self) -> (r: Option<&JsonNumber>)
        ensures
            match r {
                Some(n) => number_of(Some(*self)) == Some(*n),
                None => number_of(Some(*self)) is None,
            },
    {
        match self {
            JsonValue::Number(n) => Some(n),
            _ => None,
        }
    }

    pub fn is_null(&self) -> (r: bool)
        ensures
            r == (*self is Null),
    {
        match self {
            JsonValue::Null => true,
            _ => false,
        }
    }
}

/// `get` through an optional value.
pub fn field_of<'a>(o: Option<&'a JsonValue>, key: &str) -> (r: Option<&'a JsonValue>)
    ensures
        value_of(r) == field(value_of(o), key@),
{
    match o {
        Some(v) => v.get(key),
        None => None,
    }
}

/// `as_str` through an optional value.
pub fn text_field(o: Option<&JsonValue>) -> (r: Option<String>)
    ensures
        match r {
            Some(s) => text_of(value_of(o)) == Some(s@),
            None => text_of(value_of(o)) is None,
        },
{
    match o {
        Some(v) => match v.as_str() {
            Some(s) => Some(s.to_owned()),
            None => None,
        },
        None => None,
    }
}

/// `as_i64` through an optional value.
pub fn int_field(o: Option<&JsonValue>) -> (r: Option<i64>)
    ensures
        r == int_of(value_of(o)),
{
    match o {
        Some(v) => v.as_i64(),
        None => None,
    }
}

/// `as_bool` through an optional value.
pub fn bool_field(o: Option<&JsonValue>) -> (r: Option<bool>)
    ensures
        r == bool_of(value_of(o)),
{
    match o {
        Some(v) => v.as_bool(),
        None => None,
    }
}

} // verus!
