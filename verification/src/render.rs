use crate::json::{Json, JsonValue};
use vstd::prelude::*;

verus! {

/// A value of `serde_json`.
#[verifier::external_type_specification]
#[verifier::external_body]
pub struct ExSerdeValue(serde_json::Value);

/// The text that `serde_json` writes for a value: compact JSON, with texts
/// escaped and the keys of each object in the order of texts.
pub uninterp spec fn serde_json_text(j: Json) -> Seq<char>;

/// The value of `serde_json` for a structural value, variant for variant:
/// `serde_json::Value`'s variants and its `From<i64>`. Nothing is claimed of
/// the outcome here; `serde_text` names what is written for it.
#[verifier::external_body]
fn to_serde_value(v: &JsonValue) -> (r: serde_json::Value) {
    match v {
        JsonValue::Null => serde_json::Value::Null,
        JsonValue::Bool(b) => serde_json::Value::Bool(*b),
        JsonValue::Number(n) => serde_json::Value::from(*n),
        JsonValue::Text(s) => serde_json::Value::String(s.clone()),
        JsonValue::Array(a) => serde_json::Value::Array(a.iter().map(to_serde_value).collect()),
        JsonValue::Object(o) => serde_json::Value::Object(
            o.entries.iter().map(|e| (e.0.clone(), to_serde_value(&e.1))).collect(),
        ),
    }
}

/// `serde_json::Value`'s `Display`, through `to_string`: the compact JSON
/// text of the value. An object of `serde_json` keeps its keys in the order
/// of texts, so the text follows from the model of the value alone; it is
/// named `serde_json_text`.
#[verifier::external_body]
fn serde_text(v: &JsonValue) -> (r: String)
    ensures
        r@ == serde_json_text(v@),
{
    to_serde_value(v).to_string()
}

impl JsonValue {
    /// The text of the value, as `serde_json` writes it.
    pub fn render(&self) -> (r: String)
        ensures
            r@ == serde_json_text(self@),
    {
        serde_text(self)
    }
}

} // verus!
