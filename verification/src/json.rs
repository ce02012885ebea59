//! A parsed JSON document, as the `package.json` and package-map logic reads it.
use vstd::prelude::*;

use crate::path::chars_eq;
use crate::text::str_chars;

verus! {

/// A JSON value. Numbers keep their text; object entries keep their order.
#[derive(Debug)]
pub enum JsonValue {
    Null,
    Bool(bool),
    Number(String),
    String(String),
    Array(Vec<JsonValue>),
    Object(JsonObject),
}

/// A JSON object: its entries in order. Lookups find the first entry with the key.
#[derive(Debug)]
pub struct JsonObject {
    pub entries: Vec<(String, JsonValue)>,
}

/// The index of the first entry whose key is `key`, or the number of entries.
pub open spec fn spec_find_key(entries: Seq<(String, JsonValue)>, key: Seq<char>) -> int
    decreases entries.len(),
{
    if entries.len() == 0 {
        0
    } else if entries[0].0@ == key {
        0
    } else {
        1 + spec_find_key(entries.skip(1), key)
    }
}

pub proof fn lemma_find_key(entries: Seq<(String, JsonValue)>, key: Seq<char>)
    ensures
        0 <= spec_find_key(entries, key) <= entries.len(),
        spec_find_key(entries, key) < entries.len() ==> entries[spec_find_key(entries, key)].0@ == key,
        forall|k: int| 0 <= k < spec_find_key(entries, key) ==> (#[trigger] entries[k]).0@ != key,
    decreases entries.len(),
{
    if entries.len() > 0 && entries[0].0@ != key {
        lemma_find_key(entries.skip(1), key);
        assert forall|k: int| 0 <= k < spec_find_key(entries, key) implies (#[trigger] entries[k]).0@ != key by {
            if k > 0 {
                assert(entries[k] == entries.skip(1)[k - 1]);
            }
        }
    }
}

/// The value of the first entry of `o` with the key `key`.
pub open spec fn spec_object_get(o: JsonObject, key: Seq<char>) -> Option<JsonValue> {
    let i = spec_find_key(o.entries@, key);
    if i < o.entries@.len() {
        Some(o.entries@[i].1)
    } else {
        None
    }
}

/// The value reached from `v` by following the object keys of `path`.
pub open spec fn spec_value_at(v: JsonValue, path: Seq<String>) -> Option<JsonValue>
    decreases path.len(),
{
    if path.len() == 0 {
        Some(v)
    } else {
        match v {
            JsonValue::Object(o) => match spec_object_get(o, path[0]@) {
                Some(c) => spec_value_at(c, path.skip(1)),
                None => None,
            },
            _ => None,
        }
    }
}

/// The value of `fields` at the non-empty key path `path` (e.g. `["exports"]` or `["a", "b"]`).
pub open spec fn spec_get_value_by_path(fields: JsonObject, path: Seq<String>) -> Option<JsonValue> {
    if path.len() == 0 {
        None
    } else {
        match spec_object_get(fields, path[0]@) {
            Some(v) => spec_value_at(v, path.skip(1)),
            None => None,
        }
    }
}

/// Whether `s` holds exactly the characters of `t`.
pub fn str_eq(s: &str, t: &str) -> (r: bool)
    ensures
        r == (s@ == t@),
{
    let a = str_chars(s);
    let b = str_chars(t);
    chars_eq(&a, &b)
}

impl JsonObject {
    /// The value of the first entry with the key `key`.
    pub fn get(&self, key: &str) -> (r: Option<&JsonValue>)
        ensures
            r matches Some(v) ==> spec_object_get(*self, key@) == Some(*v),
            r is None ==> spec_object_get(*self, key@) is None,
    {
        let ghost es = self.entries@;
        proof {
            lemma_find_key(es, key@);
        }
        let mut i: usize = 0;
        proof {
            assert(es.skip(0) =~= es);
        }
        while i < self.entries.len()
            invariant
                i <= es.len(),
                es == self.entries@,
                spec_find_key(es, key@) == i + spec_find_key(es.skip(i as int), key@),
            decreases self.entries.len() - i,
        {
            if str_eq(self.entries[i].0.as_str(), key) {
                return Some(&self.entries[i].1);
            }
            proof {
                assert(es.skip(i as int).skip(1) =~= es.skip(i as int + 1));
            }
            i = i + 1;
        }
        None
    }
}

impl JsonValue {
    pub fn as_str(&self) -> (r: Option<&str>)
        ensures
            match *self {
                JsonValue::String(s) => r matches Some(t) && t@ == s@,
                _ => r is None,
            },
    {
        match self {
            JsonValue::String(s) => Some(s.as_str()),
            _ => None,
        }
    }

    pub fn as_bool(&self) -> (r: Option<bool>)
        ensures
            r == (match *self {
                JsonValue::Bool(b) => Some(b),
                _ => None,
            }),
    {
        match self {
            JsonValue::Bool(b) => Some(*b),
            _ => None,
        }
    }

    pub fn as_slice(&self) -> (r: Option<&[JsonValue]>)
        ensures
            match *self {
                JsonValue::Array(a) => r matches Some(t) && t@ == a@,
                _ => r is None,
            },
    {
        match self {
            JsonValue::Array(a) => Some(a.as_slice()),
            _ => None,
        }
    }

    pub fn as_object(&self) -> (r: Option<&JsonObject>)
        ensures
            match *self {
                JsonValue::Object(o) => r == Some(&o),
                _ => r is None,
            },
    {
        match self {
            JsonValue::Object(o) => Some(o),
            _ => None,
        }
    }
}

/// Navigate `fields` along `path` (e.g. `["exports"]` or `["a", "b"]`), returning the value.
pub fn get_value_by_path<'a>(fields: &'a JsonObject, path: &[String]) -> (r: Option<&'a JsonValue>)
    ensures
        r matches Some(v) ==> spec_get_value_by_path(*fields, path@) == Some(*v),
        r is None ==> spec_get_value_by_path(*fields, path@) is None,
{
    if path.len() == 0 {
        return None;
    }
    let mut value = match fields.get(path[0].as_str()) {
        Some(v) => v,
        None => return None,
    };
    let mut i: usize = 1;
    proof {
        assert(path@.skip(1) == path@.skip(i as int));
    }
    while i < path.len()
        invariant
            1 <= i <= path@.len(),
            spec_get_value_by_path(*fields, path@) == spec_value_at(*value, path@.skip(i as int)),
        decreases path.len() - i,
    {
        let ghost rest = path@.skip(i as int);
        proof {
            assert(rest[0] == path@[i as int]);
            assert(rest.skip(1) =~= path@.skip(i as int + 1));
        }
        let o = match value.as_object() {
            Some(o) => o,
            None => return None,
        };
        value = match o.get(path[i].as_str()) {
            Some(v) => v,
            None => return None,
        };
        i = i + 1;
    }
    proof {
        assert(path@.skip(i as int).len() == 0);
    }
    Some(value)
}

} // verus!
