//! The compact JSON text of a value.

use vstd::prelude::*;
use vstd::string::StringExecFns;
use crate::value::Json;
use crate::value::JsonNumber;
use crate::value::JsonValue;

verus! {

/// serde_json's value, carried from the conversion to the formatting.
#[verifier::external_type_specification]
#[verifier::external_body]
pub struct ExOutsideValue(serde_json::Value);

/// The compact JSON text that serde_json writes for the value: what
/// `to_string` returns for the `serde_json::Value` that the value converts to.
pub uninterp spec fn rendered(value: Json) -> Seq<char>;

/// Changes a value into serde_json's `Value`, variant for variant; a decimal
/// literal goes through serde_json's `from_str`, and one that it refuses
/// becomes a null. Nothing is claimed of the result, which only
/// `compact_text` reads.
#[verifier::external_body]
fn outside_value(value: &JsonValue) -> (out: serde_json::Value) {
    match value {
        JsonValue::Null => serde_json::Value::Null,
        JsonValue::Bool(flag) => serde_json::Value::Bool(*flag),
        JsonValue::Number(JsonNumber::Integer(whole)) => serde_json::Value::from(*whole),
        JsonValue::Number(JsonNumber::Decimal(literal)) => {
            serde_json::from_str(literal).unwrap_or(serde_json::Value::Null)
        },
        JsonValue::String(text) => serde_json::Value::String(text.clone()),
        JsonValue::Array(items) => items.iter().map(outside_value).collect(),
        JsonValue::Object(members) => serde_json::Value::Object(
            members.iter().map(|m| (m.key.clone(), outside_value(&m.value))).collect(),
        ),
    }
}

/// Formats the converted value with serde_json's `Display` for `Value`, which
/// writes compact JSON. The text is a function of the value alone and is
/// only named here.
#[verifier::external_body]
fn compact_text(value: &JsonValue) -> (out: String)
    ensures
        out@ == rendered(value@),
{
    outside_value(value).to_string()
}

/// The compact JSON text of `v`.
pub fn render(v: &JsonValue) -> (out: String)
    ensures
        out@ == rendered(v@),
{
    compact_text(v)
}

/// Appends the compact JSON text of `v` to `out`.
pub fn render_into(out: &mut String, v: &JsonValue)
    ensures
        final(out)@ == old(out)@ + rendered(v@),
{
    let text = render(v);
    out.append(text.as_str());
}

} // verus!
