//! The crate's trusted boundary: parsing text into the library's JSON tree,
//! rendering a tree back to pretty-printed text, and turning an RFC 3339
//! date-time string into Unix epoch seconds. Each item here makes one call
//! into an outside crate and states only what that crate's source shows.

use vstd::prelude::*;
use crate::json::JsonValue;

verus! {

#[verifier::external_type_specification]
#[verifier::external_body]
pub struct ExNumber(serde_json::Number);

#[verifier::external_type_specification]
#[verifier::external_body]
pub struct ExValue(serde_json::Value);

/// Relies on `serde_json::Number`'s derived `Clone`: a clone is a copy of
/// the number's fields.
pub assume_specification[ <serde_json::Number as Clone>::clone ](
    n: &serde_json::Number,
) -> (r: serde_json::Number)
    ensures
        r == *n,
;

/// The JSON tree that a given text parses to, or nothing where the text is
/// not valid JSON. A pure function of the text: parsing has no other input.
pub uninterp spec fn json_of(s: Seq<char>) -> Option<JsonValue>;

/// Relies on `serde_json::from_str`: parses the text as one JSON document,
/// deterministically, and fails exactly on invalid JSON.
#[verifier::external_body]
pub fn parse_json(s: &str) -> (r: Option<JsonValue>)
    ensures
        r == json_of(s@),
{
    match serde_json::from_str::<serde_json::Value>(s) {
        Ok(v) => Some(of_outside(&v)),
        Err(_) => None,
    }
}

/// Conversion glue for `parse_json`: rebuilds a `serde_json::Value` as the
/// library's own tree, one arm per variant. Numbers go through
/// `serde_json::Number::as_i64`, which yields the exact integer value when
/// there is one.
#[verifier::external_body]
fn of_outside(v: &serde_json::Value) -> JsonValue {
    match v {
        serde_json::Value::Null => JsonValue::Null,
        serde_json::Value::Bool(b) => JsonValue::Bool(*b),
        serde_json::Value::Number(n) => match n.as_i64() {
            Some(i) => JsonValue::Int(i),
            None => JsonValue::OtherNumber(n.clone()),
        },
        serde_json::Value::String(s) => JsonValue::Str(s.clone()),
        serde_json::Value::Array(xs) => JsonValue::Arr(xs.iter().map(of_outside).collect()),
        serde_json::Value::Object(fs) => JsonValue::Obj(
            fs.iter().map(|p| (p.0.clone(), of_outside(p.1))).collect(),
        ),
    }
}

/// The pretty-printed text of a JSON tree: two-space-indented JSON, a pure
/// function of the tree alone.
pub uninterp spec fn pretty_of(v: JsonValue) -> Seq<char>;

/// Relies on `serde_json::to_string_pretty`: renders one JSON document with
/// two-space indentation (its default `PrettyFormatter`), deterministically.
/// Serializing a `serde_json::Value` cannot fail.
#[verifier::external_body]
pub fn render_pretty(v: &JsonValue) -> (r: String)
    ensures
        r@ == pretty_of(*v),
{
    match serde_json::to_string_pretty(&to_outside(v)) {
        Ok(s) => s,
        Err(_) => String::new(),
    }
}

/// Conversion glue for `render_pretty`: rebuilds the library's tree as a
/// `serde_json::Value`, one arm per variant.
#[verifier::external_body]
fn to_outside(v: &JsonValue) -> serde_json::Value {
    match v {
        JsonValue::Null => serde_json::Value::Null,
        JsonValue::Bool(b) => serde_json::Value::Bool(*b),
        JsonValue::Int(i) => serde_json::Value::Number(serde_json::Number::from(*i)),
        JsonValue::OtherNumber(n) => serde_json::Value::Number(n.clone()),
        JsonValue::Str(s) => serde_json::Value::String(s.clone()),
        JsonValue::Arr(xs) => serde_json::Value::Array(xs.iter().map(to_outside).collect()),
        JsonValue::Obj(fs) => serde_json::Value::Object(
            fs.iter().map(|p| (p.0.clone(), to_outside(&p.1))).collect(),
        ),
    }
}

/// The Unix epoch seconds of an RFC 3339 date-time string, with its UTC
/// offset applied, or nothing where the string is not such a date-time. A
/// pure function of the string alone.
pub uninterp spec fn rfc3339_epoch(s: Seq<char>) -> Option<int>;

/// Relies on chrono's `DateTime::parse_from_rfc3339` and
/// `DateTime::timestamp`: parses an RFC 3339 date-time with its offset and
/// returns its Unix epoch seconds, deterministically.
#[verifier::external_body]
pub fn to_epoch(s: &str) -> (r: Option<i64>)
    ensures
        match r {
            Some(t) => rfc3339_epoch(s@) == Some(t as int),
            None => rfc3339_epoch(s@) is None,
        },
{
    match chrono::DateTime::parse_from_rfc3339(s) {
        Ok(dt) => Some(dt.timestamp()),
        Err(_) => None,
    }
}

} // verus!
