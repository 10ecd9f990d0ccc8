use rs_w3r::headers::{parse_header_entries, parse_header_entry};

#[test]
fn malformed_entry_is_ignored_wellformed_still_applies() {
    // "NoColonHere" is dropped; the well-formed entry alongside it applies.
    let entries = vec!["NoColonHere".to_string(), "X-Test: value".to_string()];
    let parsed = parse_header_entries(&entries);
    assert_eq!(parsed, vec![("x-test".to_string(), "value".to_string())]);
}

#[test]
fn names_are_lowered_and_values_trimmed() {
    let r = parse_header_entry("Content-Type:  application/json  ").unwrap();
    assert_eq!(r.0, "content-type");
    assert_eq!(r.1, "application/json");
}

#[test]
fn unicode_whitespace_is_trimmed_from_the_value() {
    let r = parse_header_entry("X-Test:\u{a0}v\u{a0}").unwrap();
    assert_eq!(r.1, "v");
}

#[test]
fn value_keeps_inner_colons() {
    let r = parse_header_entry("X-Time: 12:30:00").unwrap();
    assert_eq!(r.1, "12:30:00");
}

#[test]
fn entry_without_colon_is_none() {
    assert!(parse_header_entry("NoColonHere").is_none());
}

#[test]
fn empty_name_is_none() {
    assert!(parse_header_entry(": value").is_none());
}

#[test]
fn name_with_forbidden_character_is_none() {
    assert!(parse_header_entry("Bad Name: v").is_none());
    assert!(parse_header_entry("Bad(Name): v").is_none());
}

#[test]
fn value_with_control_character_is_none() {
    assert!(parse_header_entry("X-Test: a\u{1}b").is_none());
}

#[test]
fn empty_value_is_kept() {
    let r = parse_header_entry("X-Empty:").unwrap();
    assert_eq!(r, ("x-empty".to_string(), "".to_string()));
}

#[test]
fn order_of_wellformed_entries_is_kept() {
    let entries = vec![
        "A: 1".to_string(),
        "nope".to_string(),
        "B: 2".to_string(),
    ];
    let parsed = parse_header_entries(&entries);
    assert_eq!(
        parsed,
        vec![
            ("a".to_string(), "1".to_string()),
            ("b".to_string(), "2".to_string()),
        ]
    );
}
