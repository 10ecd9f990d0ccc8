use rs_w3r::json::{render, JsonValue};

fn sample_object() -> JsonValue {
    JsonValue::Obj(vec![
        ("a".to_string(), JsonValue::Num("1".to_string())),
        (
            "b".to_string(),
            JsonValue::Arr(vec![
                JsonValue::Num("2".to_string()),
                JsonValue::Num("3".to_string()),
            ]),
        ),
    ])
}

#[test]
fn compact_rendering() {
    assert_eq!(render(&sample_object(), false), "{\"a\":1,\"b\":[2,3]}");
}

#[test]
fn pretty_rendering() {
    assert_eq!(
        render(&sample_object(), true),
        "{\n  \"a\": 1,\n  \"b\": [\n    2,\n    3\n  ]\n}"
    );
}

#[test]
fn rendering_matches_the_reference_serializer() {
    // The library's renderer must produce byte for byte what serde_json
    // produces for the same value.
    let text = "{\"a\":1,\"b\":[2,3],\"c\":{\"d\":null,\"e\":true},\"f\":\"x\\ny\"}";
    let v: serde_json::Value = serde_json::from_str(text).unwrap();
    let compact = serde_json::to_string(&v).unwrap();
    let pretty = serde_json::to_string_pretty(&v).unwrap();
    let mine_compact = rs_w3r::pipeline::format_response_body(text, None, false);
    let mine_pretty = rs_w3r::pipeline::format_response_body(text, None, true);
    assert_eq!(mine_compact, compact);
    assert_eq!(mine_pretty, pretty);
}

#[test]
fn scalars_render_as_their_tokens() {
    assert_eq!(render(&JsonValue::Null, false), "null");
    assert_eq!(render(&JsonValue::Bool(true), false), "true");
    assert_eq!(render(&JsonValue::Bool(false), true), "false");
    assert_eq!(render(&JsonValue::Num("-12.5".to_string()), false), "-12.5");
    assert_eq!(render(&JsonValue::Str("hi".to_string()), false), "\"hi\"");
}

#[test]
fn empty_containers_render_closed() {
    assert_eq!(render(&JsonValue::Arr(vec![]), false), "[]");
    assert_eq!(render(&JsonValue::Arr(vec![]), true), "[]");
    assert_eq!(render(&JsonValue::Obj(vec![]), false), "{}");
    assert_eq!(render(&JsonValue::Obj(vec![]), true), "{}");
}

#[test]
fn string_escapes() {
    let v = JsonValue::Str("q\"b\\n\nt\tr\rc\u{1}".to_string());
    assert_eq!(render(&v, false), "\"q\\\"b\\\\n\\nt\\tr\\rc\\u0001\"");
}

#[test]
fn non_ascii_is_not_escaped() {
    let v = JsonValue::Str("héllo €".to_string());
    assert_eq!(render(&v, false), "\"héllo €\"");
}
