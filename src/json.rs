//! A JSON document as plain values, and the two calls into serde_json that
//! read and write its text.
use vstd::prelude::*;

verus! {

/// A JSON value. A number keeps the text that serde_json prints for it.
#[derive(Debug, PartialEq)]
pub enum Json {
    Null,
    Bool(bool),
    Number(String),
    Str(String),
    Array(Vec<Json>),
    Object(Vec<(String, Json)>),
}

#[verifier::external_type_specification]
#[verifier::external_body]
pub struct ExValue(serde_json::Value);

/// The document that a text holds, as serde_json reads it; `None` when the
/// text is not JSON.
pub uninterp spec fn parsed_json(text: Seq<char>) -> Option<Json>;

/// The compact text that serde_json writes for a document; `None` when a
/// number in it is not one that serde_json reads.
pub uninterp spec fn rendered_json(j: Json) -> Option<Seq<char>>;

/// Relies on serde_json::from_str into serde_json::Value: the result depends on
/// the text alone.
#[verifier::external_body]
pub(crate) fn parse_json(text: &str) -> (r: Option<Json>)
    ensures
        r == parsed_json(text@),
{
    serde_json::from_str::<serde_json::Value>(text).ok().map(json_of_value)
}

/// Relies on serde_json's `Display` of serde_json::Value (compact JSON text) and
/// on its reading of number text: the result depends on the document alone.
#[verifier::external_body]
pub(crate) fn render_json(j: &Json) -> (r: Option<String>)
    ensures
        match r {
            Some(s) => rendered_json(*j) == Some(s@),
            None => rendered_json(*j) is None,
        },
{
    value_of_json(j).map(|v| v.to_string())
}

/// Moves a serde_json::Value into the library's own form, variant by variant.
#[verifier::external_body]
fn json_of_value(v: serde_json::Value) -> Json {
    match v {
        serde_json::Value::Null => Json::Null,
        serde_json::Value::Bool(b) => Json::Bool(b),
        serde_json::Value::Number(n) => Json::Number(n.to_string()),
        serde_json::Value::String(s) => Json::Str(s),
        serde_json::Value::Array(a) => Json::Array(a.into_iter().map(json_of_value).collect()),
        serde_json::Value::Object(o) => Json::Object(
            o.into_iter().map(|(k, x)| (k, json_of_value(x))).collect(),
        ),
    }
}

/// Builds the serde_json::Value of a document, variant by variant.
#[verifier::external_body]
fn value_of_json(j: &Json) -> Option<serde_json::Value> {
    Some(match j {
        Json::Null => serde_json::Value::Null,
        Json::Bool(b) => serde_json::Value::Bool(*b),
        Json::Number(t) => serde_json::Value::Number(serde_json::from_str(t).ok()?),
        Json::Str(s) => serde_json::Value::String(s.clone()),
        Json::Array(a) => serde_json::Value::Array(a.iter().map(value_of_json).collect::<Option<_>>()?),
        Json::Object(o) => serde_json::Value::Object(
            o.iter().map(|(k, x)| Some((k.clone(), value_of_json(x)?))).collect::<Option<_>>()?,
        ),
    })
}

} // verus!
