use rs_w3r::json::JsonValue;
use rs_w3r::pipeline::{format_response_body, process_parsed};

#[test]
fn non_json_body_passes_through_unchanged() {
    // Filter and pretty are no-ops on a body that is not JSON.
    let body = "hello world";
    assert_eq!(format_response_body(body, Some("a.b"), true), body);
    assert_eq!(format_response_body(body, None, false), body);
    let truncated = "{\"a\": 1";
    assert_eq!(format_response_body(truncated, Some("."), true), truncated);
}

#[test]
fn json_body_is_reserialized_compact() {
    assert_eq!(
        format_response_body("{ \"a\" : 1 , \"b\" : [ 2 , 3 ] }", None, false),
        "{\"a\":1,\"b\":[2,3]}"
    );
}

#[test]
fn json_body_is_reserialized_pretty() {
    assert_eq!(
        format_response_body("{\"a\":1}", None, true),
        "{\n  \"a\": 1\n}"
    );
}

#[test]
fn filter_is_applied_before_rendering() {
    let body = "{\"items\":[\"x\",\"y\",\"z\"]}";
    assert_eq!(format_response_body(body, Some("items[1]"), false), "\"y\"");
    assert_eq!(format_response_body(body, Some("items[9]"), false), "null");
    assert_eq!(format_response_body(body, Some("nope.deep"), true), "null");
}

#[test]
fn round_trip_keeps_the_logical_value() {
    // Pretty and compact renderings of one value re-parse to that value:
    // re-rendering either of them compact gives the same compact text.
    let body = "{\"a\":1,\"b\":[2,3]}";
    let compact = format_response_body(body, None, false);
    let pretty = format_response_body(body, None, true);
    assert_eq!(format_response_body(&pretty, None, false), compact);
    assert_eq!(format_response_body(&compact, None, true), pretty);
    let reparsed: serde_json::Value = serde_json::from_str(&pretty).unwrap();
    let original: serde_json::Value = serde_json::from_str(body).unwrap();
    assert_eq!(reparsed, original);
}

#[test]
fn duplicate_keys_collapse_to_the_last_value() {
    assert_eq!(
        format_response_body("{\"a\":1,\"a\":2}", None, false),
        "{\"a\":2}"
    );
}

#[test]
fn object_keys_come_out_sorted_as_the_parser_orders_them() {
    assert_eq!(
        format_response_body("{\"b\":2,\"a\":1}", None, false),
        "{\"a\":1,\"b\":2}"
    );
}

#[test]
fn number_tokens_round_trip_through_the_parser() {
    let body = "[1.5e2,0.1,-0.0,42]";
    let v: serde_json::Value = serde_json::from_str(body).unwrap();
    assert_eq!(
        format_response_body(body, None, false),
        serde_json::to_string(&v).unwrap()
    );
}

#[test]
fn process_parsed_filters_and_renders() {
    let v = JsonValue::Obj(vec![(
        "a".to_string(),
        JsonValue::Arr(vec![JsonValue::Bool(true)]),
    )]);
    assert_eq!(process_parsed(v, Some("a[0]"), false), "true");
}

#[test]
fn scalar_json_bodies_are_still_json() {
    assert_eq!(format_response_body("42", Some("x"), false), "null");
    assert_eq!(format_response_body("\"hi\"", None, true), "\"hi\"");
    assert_eq!(format_response_body("null", None, false), "null");
}
