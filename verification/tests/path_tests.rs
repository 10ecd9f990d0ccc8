use rs_w3r::json::JsonValue;
use rs_w3r::path::{extract_json_path, parse_json_path, process_json_path_part, PathSegment};

fn items_object(items: &[&str]) -> JsonValue {
    JsonValue::Obj(vec![(
        "items".to_string(),
        JsonValue::Arr(
            items
                .iter()
                .map(|s| JsonValue::Str(s.to_string()))
                .collect(),
        ),
    )])
}

#[test]
fn root_path_is_identity() {
    let v = items_object(&["x"]);
    let expected = items_object(&["x"]);
    assert_eq!(extract_json_path(v, "."), expected);
    let w = JsonValue::Num("42".to_string());
    assert_eq!(extract_json_path(w, " . "), JsonValue::Num("42".to_string()));
}

#[test]
fn unicode_whitespace_is_trimmed_from_the_path() {
    let v = JsonValue::Num("42".to_string());
    assert_eq!(
        extract_json_path(v, "\u{a0}.\u{a0}"),
        JsonValue::Num("42".to_string())
    );
}

#[test]
fn empty_path_is_identity() {
    assert_eq!(extract_json_path(JsonValue::Bool(true), ""), JsonValue::Bool(true));
}

#[test]
fn missing_field_yields_null_not_error() {
    let v = JsonValue::Obj(vec![("a".to_string(), JsonValue::Num("1".to_string()))]);
    assert_eq!(extract_json_path(v, "a.b.c"), JsonValue::Null);
}

#[test]
fn field_access_on_scalar_yields_null() {
    assert_eq!(extract_json_path(JsonValue::Num("1".to_string()), "x"), JsonValue::Null);
}

#[test]
fn index_in_range_picks_the_element() {
    let v = items_object(&["x", "y", "z"]);
    assert_eq!(extract_json_path(v, "items[1]"), JsonValue::Str("y".to_string()));
}

#[test]
fn index_out_of_range_yields_null() {
    let v = items_object(&["x"]);
    assert_eq!(extract_json_path(v, "items[1]"), JsonValue::Null);
}

#[test]
fn bare_index_applies_to_the_current_value() {
    let v = JsonValue::Arr(vec![
        JsonValue::Str("x".to_string()),
        JsonValue::Str("y".to_string()),
    ]);
    assert_eq!(extract_json_path(v, "[1]"), JsonValue::Str("y".to_string()));
}

#[test]
fn nested_chain() {
    let v = JsonValue::Obj(vec![(
        "a".to_string(),
        JsonValue::Obj(vec![(
            "b".to_string(),
            JsonValue::Arr(vec![JsonValue::Obj(vec![(
                "c".to_string(),
                JsonValue::Num("7".to_string()),
            )])]),
        )]),
    )]);
    assert_eq!(extract_json_path(v, "a.b[0].c"), JsonValue::Num("7".to_string()));
}

#[test]
fn leading_dot_is_stripped_and_empty_parts_dropped() {
    let v = items_object(&["x", "y"]);
    assert_eq!(
        extract_json_path(v, ".items..[0]"),
        JsonValue::Str("x".to_string())
    );
}

#[test]
fn invalid_index_yields_null_not_a_field_lookup() {
    // A closed bracket around a non-integer is an invalid index: null, even
    // when the object holds the literal part as a key.
    let v = items_object(&["x"]);
    assert_eq!(extract_json_path(v, "items[zero]"), JsonValue::Null);
    let w = JsonValue::Obj(vec![("a[x]".to_string(), JsonValue::Num("5".to_string()))]);
    assert_eq!(extract_json_path(w, "a[x]"), JsonValue::Null);
    let e = JsonValue::Arr(vec![JsonValue::Bool(true)]);
    assert_eq!(extract_json_path(e, "[]"), JsonValue::Null);
}

#[test]
fn unclosed_bracket_reads_as_a_field_name() {
    // A bracket that never closes is no index at all: the whole part is a
    // literal field name.
    let v = items_object(&["x"]);
    assert_eq!(extract_json_path(v, "items[0"), JsonValue::Null);
    let w = JsonValue::Obj(vec![("a[0".to_string(), JsonValue::Num("5".to_string()))]);
    assert_eq!(extract_json_path(w, "a[0"), JsonValue::Num("5".to_string()));
}

#[test]
fn text_after_the_closing_bracket_is_ignored() {
    let v = items_object(&["x", "y"]);
    assert_eq!(
        extract_json_path(v, "items[1]zzz"),
        JsonValue::Str("y".to_string())
    );
}

#[test]
fn parse_path_segments() {
    let segs = parse_json_path("a.b[2].c");
    assert_eq!(
        segs,
        vec![
            PathSegment::Field("a".to_string()),
            PathSegment::Index("b".to_string(), 2),
            PathSegment::Field("c".to_string()),
        ]
    );
    assert_eq!(
        parse_json_path("a[x].b"),
        vec![PathSegment::InvalidIndex, PathSegment::Field("b".to_string())]
    );
}

#[test]
fn parse_path_root_has_no_segments() {
    assert_eq!(parse_json_path("."), Vec::<PathSegment>::new());
    assert_eq!(parse_json_path("  .  "), Vec::<PathSegment>::new());
}

#[test]
fn index_with_plus_sign_parses() {
    let segs = parse_json_path("a[+1]");
    assert_eq!(segs, vec![PathSegment::Index("a".to_string(), 1)]);
}

#[test]
fn one_part_applied_directly() {
    let v = items_object(&["x", "y"]);
    assert_eq!(
        process_json_path_part(v, "items[0]"),
        JsonValue::Str("x".to_string())
    );
}
