//! A JSON document as plain values, read from text by `serde_json`, and the
//! lookups that `serde_json::Value` offers on it (`get` with a key, `as_str`,
//! `as_array`).

use vstd::prelude::*;

use crate::text::{chars_of, eq_str};

verus! {

/// A JSON value. Numbers keep their text; an object keeps its members in
/// order, each key once.
#[derive(Debug)]
pub enum JsonValue {
    Null,
    Bool(bool),
    Number(String),
    Str(String),
    Array(Vec<JsonValue>),
    Object(Vec<(String, JsonValue)>),
}

/// The value of the first member named `key`.
pub open spec fn member(entries: Seq<(String, JsonValue)>, key: Seq<char>) -> Option<JsonValue>
    decreases entries.len(),
{
    if entries.len() == 0 {
        None
    } else if entries[0].0@ == key {
        Some(entries[0].1)
    } else {
        member(entries.drop_first(), key)
    }
}

/// `Value::get(key)`: the member named `key` of an object; nothing for any
/// other value.
pub open spec fn json_get(v: JsonValue, key: Seq<char>) -> Option<JsonValue> {
    match v {
        JsonValue::Object(entries) => member(entries@, key),
        _ => None,
    }
}

/// `Value::as_str`.
pub open spec fn json_str(v: Option<JsonValue>) -> Option<Seq<char>> {
    match v {
        Some(JsonValue::Str(s)) => Some(s@),
        _ => None,
    }
}

/// `Value::as_array`, or no items.
pub open spec fn json_items(v: Option<JsonValue>) -> Seq<JsonValue> {
    match v {
        Some(JsonValue::Array(items)) => items@,
        _ => Seq::empty(),
    }
}

proof fn lemma_member(entries: Seq<(String, JsonValue)>, key: Seq<char>, i: int)
    requires
        0 <= i <= entries.len(),
        forall|k: int| 0 <= k < i ==> entries[k].0@ != key,
        i < entries.len() ==> entries[i].0@ == key,
    ensures
        member(entries, key) == (if i < entries.len() {
            Some(entries[i].1)
        } else {
            None
        }),
    decreases i,
{
    if entries.len() > 0 && i > 0 {
        assert forall|k: int| 0 <= k < i - 1 implies entries.drop_first()[k].0@ != key by {
            assert(entries[k + 1].0@ != key);
        }
        lemma_member(entries.drop_first(), key, i - 1);
    }
}

/// `Value::get(key)`.
pub fn get<'a>(v: &'a JsonValue, key: &str) -> (r: Option<&'a JsonValue>)
    ensures
        r matches Some(x) ==> json_get(*v, key@) == Some(*x),
        r is None ==> json_get(*v, key@) is None,
{
    match v {
        JsonValue::Object(entries) => {
            let mut i: usize = 0;
            while i < entries.len()
                invariant
                    i <= entries@.len(),
                    json_get(*v, key@) == member(entries@, key@),
                    forall|k: int| 0 <= k < i ==> entries@[k].0@ != key@,
                decreases entries@.len() - i,
            {
                let name = chars_of(entries[i].0.as_str());
                if eq_str(name.as_slice(), key) {
                    proof {
                        lemma_member(entries@, key@, i as int);
                    }
                    let found = &entries[i].1;
                    assert(*found == entries@[i as int].1);
                    return Some(found);
                }
                i += 1;
            }
            proof {
                lemma_member(entries@, key@, i as int);
            }
            None
        },
        _ => None,
    }
}

/// `get(key).and_then(Value::as_str)`.
pub fn get_str<'a>(v: &'a JsonValue, key: &str) -> (r: Option<&'a String>)
    ensures
        r matches Some(s) ==> json_str(json_get(*v, key@)) == Some(s@),
        r is None ==> json_str(json_get(*v, key@)) is None,
{
    match get(v, key) {
        Some(JsonValue::Str(s)) => Some(s),
        _ => None,
    }
}

#[verifier::external_type_specification]
#[verifier::external_body]
pub struct ExSerdeJsonValue(serde_json::Value);

/// The document `serde_json` reads from a text, as plain values; nothing when
/// the text is not JSON.
pub uninterp spec fn json_document(text: Seq<char>) -> Option<JsonValue>;

/// `serde_json::from_str::<serde_json::Value>`, converted one for one into
/// `JsonValue` (numbers by their `to_string`). The result is named after the
/// text alone.
#[verifier::external_body]
pub fn parse_json(text: &str) -> (r: Option<JsonValue>)
    ensures
        r == json_document(text@),
{
    match serde_json::from_str::<serde_json::Value>(text) {
        Ok(v) => Some(plain_json(&v)),
        Err(_) => None,
    }
}

/// The one-for-one conversion of a `serde_json::Value` that `parse_json`
/// hands back: each variant to the variant of the same name.
#[verifier::external_body]
fn plain_json(v: &serde_json::Value) -> JsonValue {
    match v {
        serde_json::Value::Null => JsonValue::Null,
        serde_json::Value::Bool(b) => JsonValue::Bool(*b),
        serde_json::Value::Number(n) => JsonValue::Number(n.to_string()),
        serde_json::Value::String(t) => JsonValue::Str(t.clone()),
        serde_json::Value::Array(items) => JsonValue::Array(items.iter().map(plain_json).collect()),
        serde_json::Value::Object(map) => JsonValue::Object(
            map.iter().map(|(k, x)| (k.clone(), plain_json(x))).collect(),
        ),
    }
}

} // verus!
