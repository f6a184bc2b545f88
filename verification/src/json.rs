use vstd::prelude::*;

use crate::text::{chars_of, range_equals};

verus! {

/// A parsed JSON document, as far as this library reads one. A number is kept as the `i64`
/// it denotes, and as `None` when it is not an integer in the `i64` range.
pub enum JsonValue {
    Null,
    Bool(bool),
    Number(Option<i64>),
    Str(String),
    Array(Vec<JsonValue>),
    Object(Vec<(String, JsonValue)>),
}

#[verifier::external_type_specification]
#[verifier::external_body]
pub struct ExJsonDocument(serde_json::Value);

/// What `serde_json` parses `bytes` into, if they hold a JSON document.
pub uninterp spec fn json_of_bytes(bytes: Seq<u8>) -> Option<JsonValue>;

/// Rewrites a `serde_json::Value` into a `JsonValue`, variant for variant; a number becomes
/// what `Number::as_i64` gives, and an object keeps the entries in the order `serde_json`
/// yields them (each key once).
#[verifier::external_body]
fn json_from_document(v: &serde_json::Value) -> JsonValue {
    match v {
        serde_json::Value::Null => JsonValue::Null,
        serde_json::Value::Bool(b) => JsonValue::Bool(*b),
        serde_json::Value::Number(n) => JsonValue::Number(n.as_i64()),
        serde_json::Value::String(s) => JsonValue::Str(s.clone()),
        serde_json::Value::Array(a) => JsonValue::Array(a.iter().map(json_from_document).collect()),
        serde_json::Value::Object(m) => JsonValue::Object(
            m.iter().map(|(k, x)| (k.clone(), json_from_document(x))).collect(),
        ),
    }
}

/// `serde_json::from_slice::<serde_json::Value>`: the document `bytes` hold, or `None` where
/// they hold no JSON document. The result is named by `json_of_bytes`.
#[verifier::external_body]
pub(crate) fn parse_json(bytes: &[u8]) -> (r: Option<JsonValue>)
    ensures
        r == json_of_bytes(bytes@),
{
    match serde_json::from_slice::<serde_json::Value>(bytes) {
        Ok(v) => Some(json_from_document(&v)),
        Err(_) => None,
    }
}

/// The value under `key` in the entries `ps`, the first entry with that key.
pub open spec fn entries_get(ps: Seq<(String, JsonValue)>, key: Seq<char>) -> Option<JsonValue>
    decreases ps.len(),
{
    if ps.len() == 0 {
        None
    } else if ps[0].0@ == key {
        Some(ps[0].1)
    } else {
        entries_get(ps.drop_first(), key)
    }
}

/// `Value::get` with a string key: the member `key` of an object, `None` for anything else.
pub open spec fn json_get(v: JsonValue, key: Seq<char>) -> Option<JsonValue> {
    match v {
        JsonValue::Object(ps) => entries_get(ps@, key),
        _ => None,
    }
}

/// `Value::as_str`.
pub open spec fn json_str(v: JsonValue) -> Option<Seq<char>> {
    match v {
        JsonValue::Str(s) => Some(s@),
        _ => None,
    }
}

/// `Value::as_i64`.
pub open spec fn json_i64(v: JsonValue) -> Option<i64> {
    match v {
        JsonValue::Number(n) => n,
        _ => None,
    }
}

/// The string member `key` of `v`, if `v` is an object with such a member.
pub open spec fn member_str(v: JsonValue, key: Seq<char>) -> Option<Seq<char>> {
    match json_get(v, key) {
        Some(x) => json_str(x),
        None => None,
    }
}

/// The integer member `key` of `v`, if `v` is an object with such a member.
pub open spec fn member_i64(v: JsonValue, key: Seq<char>) -> Option<i64> {
    match json_get(v, key) {
        Some(x) => json_i64(x),
        None => None,
    }
}

/// `k` holds exactly the characters of `key`.
pub fn key_matches(k: &String, key: &str) -> (b: bool)
    ensures
        b == (k@ == key@),
{
    let kv = chars_of(k.as_str());
    let tv = chars_of(key);
    assert(kv@.subrange(0, kv@.len() as int) =~= kv@);
    range_equals(kv.as_slice(), 0, kv.len(), tv.as_slice())
}

/// The member `key` of `v`.
pub fn get<'a>(v: &'a JsonValue, key: &str) -> (r: Option<&'a JsonValue>)
    ensures
        r matches Some(x) ==> json_get(*v, key@) == Some(*x),
        r is None ==> json_get(*v, key@) is None,
{
    match v {
        JsonValue::Object(ps) => {
            let mut i: usize = 0;
            assert(ps@.skip(0) =~= ps@);
            while i < ps.len()
                invariant
                    i <= ps@.len(),
                    *v == JsonValue::Object(*ps),
                    entries_get(ps@, key@) == entries_get(ps@.skip(i as int), key@),
                decreases ps.len() - i,
            {
                assert(ps@.skip(i as int).drop_first() =~= ps@.skip(i + 1));
                assert(ps@.skip(i as int)[0] == ps@[i as int]);
                let entry = &ps[i];
                if key_matches(&entry.0, key) {
                    assert(entries_get(ps@.skip(i as int), key@) == Some(entry.1));
                    return Some(&entry.1);
                }
                i = i + 1;
            }
            None
        },
        _ => None,
    }
}

/// The member `key` of `v` as a string.
pub fn get_str<'a>(v: &'a JsonValue, key: &str) -> (r: Option<&'a String>)
    ensures
        r matches Some(s) ==> member_str(*v, key@) == Some(s@),
        r is None ==> member_str(*v, key@) is None,
{
    match get(v, key) {
        Some(JsonValue::Str(s)) => Some(s),
        _ => None,
    }
}

/// The member `key` of `v` as an `i64`.
pub fn get_i64(v: &JsonValue, key: &str) -> (r: Option<i64>)
    ensures
        r == member_i64(*v, key@),
{
    match get(v, key) {
        Some(JsonValue::Number(n)) => *n,
        _ => None,
    }
}

} // verus!
