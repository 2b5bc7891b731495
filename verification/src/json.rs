//! The library's own model of a parsed JSON document.
//!
//! Configuration files arrive as JSON text.  An outside parser turns the
//! text into a tree; this module models that tree with plain values, so the
//! configuration logic that walks it can be specified and verified.  Only
//! what that logic reads is kept exactly: strings, arrays, objects, null,
//! and numbers that are unsigned integers.

use vstd::prelude::*;

verus! {

#[verifier::external_type_specification]
#[verifier::external_body]
pub struct ExValue(serde_json::Value);

/// A parsed JSON value.  Numbers that are not unsigned integers (negative
/// or fractional ones) are kept only as `OtherNum`, since no configuration
/// field reads them; object bindings keep their order, and a lookup takes
/// the first binding of a key.
#[derive(Debug)]
pub enum JsonValue {
    Null,
    Bool(bool),
    Nat(u64),
    OtherNum,
    Str(String),
    Arr(Vec<JsonValue>),
    Obj(Vec<(String, JsonValue)>),
}

/// The JSON tree that parsing `text` yields, mapped onto [`JsonValue`], or
/// `None` when the text is not valid JSON.  Parsing depends on the text
/// alone.
pub uninterp spec fn json_parsed(text: Seq<char>) -> Option<JsonValue>;

/// The value of the first binding of `key` in `entries`, or null when the
/// key is absent.
pub open spec fn entries_get(entries: Seq<(String, JsonValue)>, key: Seq<char>) -> JsonValue
    decreases entries.len(),
{
    if entries.len() == 0 {
        JsonValue::Null
    } else if entries[0].0@ == key {
        entries[0].1
    } else {
        entries_get(entries.drop_first(), key)
    }
}

/// Looking `key` up in `v`: the first binding of an object, and null when
/// the key is absent or `v` is not an object at all.
pub open spec fn json_get(v: JsonValue, key: Seq<char>) -> JsonValue {
    match v {
        JsonValue::Obj(entries) => entries_get(entries@, key),
        _ => JsonValue::Null,
    }
}

/// Relies on `str`'s `PartialEq`: two string slices are equal exactly when
/// their character sequences are.
#[verifier::external_body]
fn str_eq(a: &str, b: &str) -> (r: bool)
    ensures
        r == (a@ == b@),
{
    a == b
}

impl JsonValue {
    /// Looks `key` up in this value.  A `None` result stands for JSON null:
    /// the key is absent, or this value is not an object.
    pub fn get<'a>(&'a self, key: &str) -> (r: Option<&'a JsonValue>)
        ensures
            match r {
                Some(v) => *v == json_get(*self, key@),
                None => json_get(*self, key@) == JsonValue::Null,
            },
    {
        match self {
            JsonValue::Obj(entries) => {
                let n = entries.len();
                let mut i: usize = 0;
                proof {
                    assert(entries@.skip(0) =~= entries@);
                }
                while i < n
                    invariant
                        i <= n,
                        n == entries@.len(),
                        json_get(*self, key@) == entries_get(entries@, key@),
                        entries_get(entries@, key@) == entries_get(
                            entries@.skip(i as int),
                            key@,
                        ),
                    decreases n - i,
                {
                    proof {
                        assert(entries@.skip(i as int)[0] == entries@[i as int]);
                        assert(entries@.skip(i as int).drop_first() =~= entries@.skip(i + 1));
                    }
                    if str_eq(entries[i].0.as_str(), key) {
                        return Some(&entries[i].1);
                    }
                    i = i + 1;
                }
                None
            },
            _ => None,
        }
    }
}

/// Maps a tree the outside parser produced onto the library's model: one
/// arm per variant, moving the fields over; a number keeps its value only
/// when it is an unsigned integer, which is all the configuration reads.
///
/// Relies on `serde_json::Value` (the parsed variants) and
/// `serde_json::Number::as_u64`.
#[verifier::external_body]
fn convert_value(v: serde_json::Value) -> JsonValue {
    match v {
        serde_json::Value::Null => JsonValue::Null,
        serde_json::Value::Bool(b) => JsonValue::Bool(b),
        serde_json::Value::Number(n) => match n.as_u64() {
            Some(u) => JsonValue::Nat(u),
            None => JsonValue::OtherNum,
        },
        serde_json::Value::String(s) => JsonValue::Str(s),
        serde_json::Value::Array(a) => JsonValue::Arr(a.into_iter().map(convert_value).collect()),
        serde_json::Value::Object(m) => JsonValue::Obj(
            m.into_iter().map(|(k, x)| (k, convert_value(x))).collect(),
        ),
    }
}

/// Parses JSON text into the library's model, or returns the message of the
/// syntax error.
///
/// Relies on `serde_json::from_str`: it parses exactly the valid JSON
/// texts, and parsing depends on the text alone.
#[verifier::external_body]
pub(crate) fn parse_json(text: &str) -> (r: Result<JsonValue, String>)
    ensures
        r is Ok <==> json_parsed(text@) is Some,
        r matches Ok(v) ==> json_parsed(text@) matches Some(t) && v == t,
{
    match serde_json::from_str::<serde_json::Value>(text) {
        Ok(v) => Ok(convert_value(v)),
        Err(e) => Err(format!("{}", e)),
    }
}

} // verus!
