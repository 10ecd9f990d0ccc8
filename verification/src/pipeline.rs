//! The response post-processing pipeline: a body that parses as JSON is run
//! through the optional path filter and rendered compact or pretty; a body
//! that is not JSON passes through byte for byte, whatever the flags say.

use vstd::prelude::*;
use vstd::string::StringExecFns;

use crate::json::fmt_compact;
use crate::json::fmt_pretty;
use crate::json::render;
use crate::json::JsonVal;
use crate::json::JsonValue;
use crate::path::eval_path;
use crate::path::extract_json_path;
use crate::path::path_segments;

verus! {

#[verifier::external_type_specification]
#[verifier::external_body]
pub struct ExValue(serde_json::Value);

/// Whether a text is valid JSON: what the parser accepts, which depends on
/// the characters alone.
pub uninterp spec fn is_json_text(s: Seq<char>) -> bool;

/// The structured value a JSON text parses into, which depends on the text
/// alone: object keys in the parser's order (sorted, duplicates collapsed to
/// the last), numbers as their rendered token.
pub uninterp spec fn json_val_of(s: Seq<char>) -> JsonVal;

/// Relies on serde_json::from_str: parses a text and hands its value over in
/// the library's own model; success and value depend on the text alone.
#[verifier::external_body]
fn parse_to_model(body: &str) -> (r: Option<JsonValue>)
    ensures
        r is Some <==> is_json_text(body@),
        r matches Some(j) ==> j@ == json_val_of(body@),
{
    serde_json::from_str::<serde_json::Value>(body).ok().map(|v| value_to_model(&v))
}

/// The conversion half of `parse_to_model`, standing on its own only because
/// it is recursive: one arm per variant of the parser's value type, fields
/// moved over, numbers as their rendered token.  The parser bounds nesting
/// long before the stack would.
#[verifier::external_body]
fn value_to_model(v: &serde_json::Value) -> JsonValue {
    match v {
        serde_json::Value::Null => JsonValue::Null,
        serde_json::Value::Bool(b) => JsonValue::Bool(*b),
        serde_json::Value::Number(n) => JsonValue::Num(n.to_string()),
        serde_json::Value::String(s) => JsonValue::Str(s.clone()),
        serde_json::Value::Array(items) => JsonValue::Arr(
            items.iter().map(value_to_model).collect(),
        ),
        serde_json::Value::Object(map) => JsonValue::Obj(
            map.iter().map(|(k, w)| (k.clone(), value_to_model(w))).collect(),
        ),
    }
}

/// The rendering a structured value gets: pretty or compact.
pub open spec fn rendered_text(w: JsonVal, pretty: bool) -> Seq<char> {
    if pretty {
        fmt_pretty(w, Seq::empty())
    } else {
        fmt_compact(w)
    }
}

/// The model of a structured body after the optional path filter.
pub open spec fn filtered_val(v: JsonVal, filter: Option<Seq<char>>) -> JsonVal {
    match filter {
        Some(p) => eval_path(v, path_segments(p), 0),
        None => v,
    }
}

/// Runs a structured value through the rest of the pipeline: the optional
/// path filter, then rendering, pretty or compact.
pub fn process_parsed(v: JsonValue, filter: Option<&str>, pretty: bool) -> (r: String)
    ensures
        r@ == rendered_text(
            filtered_val(
                v@,
                (match filter {
                    Some(p) => Some(p@),
                    None => None,
                }),
            ),
            pretty,
        ),
{
    let w = match filter {
        Some(p) => extract_json_path(v, p),
        None => v,
    };
    render(&w, pretty)
}

/// Runs a response body through the pipeline.  A body that is not valid JSON
/// passes through unchanged, whatever the flags say; a JSON body's parsed
/// value is put through the path filter, where one is given, and rendered
/// pretty or compact.
pub fn format_response_body(body: &str, filter: Option<&str>, pretty: bool) -> (r: String)
    ensures
        !is_json_text(body@) ==> r@ == body@,
        is_json_text(body@) ==> r@ == rendered_text(
            filtered_val(
                json_val_of(body@),
                (match filter {
                    Some(p) => Some(p@),
                    None => None,
                }),
            ),
            pretty,
        ),
{
    match parse_to_model(body) {
        None => String::from_str(body),
        Some(j) => process_parsed(j, filter, pretty),
    }
}

} // verus!
