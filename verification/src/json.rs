//! JSON values as the library reads them, parsed by `serde_json`.

use vstd::prelude::*;

verus! {

/// A JSON value as `serde_json` represents it.
#[verifier::external_type_specification]
#[verifier::external_body]
pub struct ExJsonDocument(serde_json::Value);

/// A JSON number, as `serde_json` represents it.
#[verifier::external_type_specification]
#[verifier::external_body]
pub struct ExJsonNumber(serde_json::Number);

/// `Number::clone` (derived on plain data): the copy is the same number.
pub assume_specification[ <serde_json::Number as Clone>::clone ](n: &serde_json::Number) -> (r: serde_json::Number)
    ensures
        r == *n,
;

/// A null, boolean or number.
#[derive(Clone, Debug, PartialEq)]
pub enum JsonScalar {
    Null,
    Bool(bool),
    Number(serde_json::Number),
    /// A float read from a TOML file, as the engine value that `Value::from` makes of it; unlike
    /// a JSON number it may be NaN or infinite.
    Float(minijinja::Value),
}

impl JsonScalar {
    /// A copy of the scalar.
    pub fn duplicate(&self) -> (r: JsonScalar)
        ensures
            r == *self,
    {
        match self {
            JsonScalar::Null => JsonScalar::Null,
            JsonScalar::Bool(b) => JsonScalar::Bool(*b),
            JsonScalar::Number(n) => JsonScalar::Number(n.clone()),
            JsonScalar::Float(v) => JsonScalar::Float(v.clone()),
        }
    }
}

/// A parsed JSON value.
#[derive(Debug)]
pub enum JsonValue {
    Scalar(JsonScalar),
    String(String),
    Array(Vec<JsonValue>),
    Object(Vec<(String, JsonValue)>),
}

/// The mathematical view of a [`JsonValue`].
pub enum JsonView {
    Scalar(JsonScalar),
    String(Seq<char>),
    Array(Seq<JsonView>),
    Object(Seq<(Seq<char>, JsonView)>),
}

pub open spec fn json_view(v: JsonValue) -> JsonView
    decreases v,
{
    match v {
        JsonValue::Scalar(x) => JsonView::Scalar(x),
        JsonValue::String(s) => JsonView::String(s@),
        JsonValue::Array(items) => JsonView::Array(
            Seq::new(
                items@.len(),
                |i: int|
                    if 0 <= i < items@.len() {
                        json_view(items@[i])
                    } else {
                        JsonView::String(Seq::empty())
                    },
            ),
        ),
        JsonValue::Object(entries) => JsonView::Object(
            Seq::new(
                entries@.len(),
                |i: int|
                    if 0 <= i < entries@.len() {
                        (entries@[i].0@, json_view(entries@[i].1))
                    } else {
                        (Seq::empty(), JsonView::String(Seq::empty()))
                    },
            ),
        ),
    }
}

impl View for JsonValue {
    type V = JsonView;

    open spec fn view(&self) -> JsonView {
        json_view(*self)
    }
}

/// What `serde_json::from_str::<serde_json::Value>` gives for a text: the parsed document, or
/// the error's message.
pub uninterp spec fn json_parse_result(text: Seq<char>) -> Result<JsonView, Seq<char>>;

/// Parses a JSON text with `serde_json::from_str`. The claim: the result is what
/// `json_parse_result` names for the text (the document, or the error's `Display` text).
#[verifier::external_body]
pub(crate) fn parse_json(text: &str) -> (r: Result<JsonValue, String>)
    ensures
        match r {
            Ok(v) => json_parse_result(text@) == Ok::<JsonView, Seq<char>>(v@),
            Err(e) => json_parse_result(text@) == Err::<JsonView, Seq<char>>(e@),
        },
{
    serde_json::from_str::<serde_json::Value>(text).map(json_tree).map_err(|e| e.to_string())
}

/// Moves a `serde_json::Value` into a [`JsonValue`], one variant for another; object entries
/// keep the order in which `serde_json::Map` yields them.
#[verifier::external_body]
fn json_tree(v: serde_json::Value) -> JsonValue {
    match v {
        serde_json::Value::Null => JsonValue::Scalar(JsonScalar::Null),
        serde_json::Value::Bool(b) => JsonValue::Scalar(JsonScalar::Bool(b)),
        serde_json::Value::Number(n) => JsonValue::Scalar(JsonScalar::Number(n)),
        serde_json::Value::String(s) => JsonValue::String(s),
        serde_json::Value::Array(a) => JsonValue::Array(a.into_iter().map(json_tree).collect()),
        serde_json::Value::Object(o) => JsonValue::Object(
            o.into_iter().map(|(k, v)| (k, json_tree(v))).collect(),
        ),
    }
}

} // verus!
