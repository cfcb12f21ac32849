use crate::json::{Json, JsonV};
use jsonpath_rust::JsonPath;
use vstd::prelude::*;

verus! {

#[verifier::external_type_specification]
#[verifier::external_body]
pub struct ExValue(serde_json::Value);

/// The document that a JSON text denotes, or `None` where the text is not JSON.
pub uninterp spec fn json_of_text(text: Seq<char>) -> Option<JsonV>;

/// The first node that a JSONPath expression selects in a document, or `None`
/// where it selects nothing or is not a valid expression.
pub uninterp spec fn jsonpath_first(doc: JsonV, path: Seq<char>) -> Option<JsonV>;

/// How two documents order as numbers (`-1`, `0`, `1`), or `None` where one of
/// them is not a number.
pub uninterp spec fn numeric_order(a: JsonV, b: JsonV) -> Option<i8>;

/// The compact JSON text of a document.
pub uninterp spec fn text_of_json(doc: JsonV) -> Seq<char>;

/// Converts a document into serde_json's representation, node for node.
#[verifier::external_body]
fn to_value(j: &Json) -> serde_json::Value {
    match j {
        Json::Null => serde_json::Value::Null,
        Json::Bool(b) => serde_json::Value::Bool(*b),
        Json::Int(i) => serde_json::Number::from_i128(*i).map_or(serde_json::Value::Null, serde_json::Value::Number),
        Json::Float(t) => t.parse::<serde_json::Number>().map_or(serde_json::Value::Null, serde_json::Value::Number),
        Json::Str(s) => serde_json::Value::String(s.clone()),
        Json::Array(items) => serde_json::Value::Array(items.iter().map(to_value).collect()),
        Json::Object(members) => serde_json::Value::Object(members.iter().map(|(k, v)| (k.clone(), to_value(v))).collect()),
    }
}

/// Converts serde_json's representation into a document, node for node.
#[verifier::external_body]
fn from_value(v: &serde_json::Value) -> Json {
    match v {
        serde_json::Value::Null => Json::Null,
        serde_json::Value::Bool(b) => Json::Bool(*b),
        serde_json::Value::Number(n) => n.as_i128().map_or_else(|| Json::Float(n.to_string()), Json::Int),
        serde_json::Value::String(s) => Json::Str(s.clone()),
        serde_json::Value::Array(items) => Json::Array(items.iter().map(from_value).collect()),
        serde_json::Value::Object(members) => Json::Object(members.iter().map(|(k, v)| (k.clone(), from_value(v))).collect()),
    }
}

/// Relies on `serde_json::from_str`: the document that a text denotes depends on
/// the text alone.
#[verifier::external_body]
pub(crate) fn parse_json(text: &str) -> (r: Option<Json>)
    ensures
        match r {
            Some(j) => json_of_text(text@) == Some(j@),
            None => json_of_text(text@) is None,
        },
{
    serde_json::from_str::<serde_json::Value>(text).ok().map(|v| from_value(&v))
}

/// Relies on `jsonpath_rust::JsonPath::query`: the nodes that an expression
/// selects depend on the document and the expression alone; the first is kept.
#[verifier::external_body]
pub(crate) fn query_first(doc: &Json, path: &str) -> (r: Option<Json>)
    ensures
        match r {
            Some(j) => jsonpath_first(doc@, path@) == Some(j@),
            None => jsonpath_first(doc@, path@) is None,
        },
{
    let value = to_value(doc);
    let found = value.query(path).ok()?;
    found.first().map(|v| from_value(v))
}

/// Relies on `serde_json::to_string`: the compact text of a document depends on
/// the document alone.
#[verifier::external_body]
pub(crate) fn json_to_text(doc: &Json) -> (r: String)
    ensures
        r@ == text_of_json(doc@),
{
    serde_json::to_string(&to_value(doc)).unwrap_or_default()
}

/// Relies on `serde_json::Value::as_f64`, which yields nothing for a value
/// that is not a number, and on `partial_cmp` of the numbers it yields.
#[verifier::external_body]
pub(crate) fn compare_numbers(a: &Json, b: &Json) -> (r: Option<i8>)
    ensures
        r == numeric_order(a@, b@),
        !(a@ is Int || a@ is Float) ==> r is None,
        !(b@ is Int || b@ is Float) ==> r is None,
        r matches Some(o) ==> -1 <= o <= 1,
{
    let x = to_value(a).as_f64()?;
    let y = to_value(b).as_f64()?;
    x.partial_cmp(&y).map(|o| o as i8)
}

} // verus!
