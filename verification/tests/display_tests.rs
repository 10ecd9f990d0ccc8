use rs_w3r::display::{render_request_lines, render_response_lines, u64_to_string};

#[test]
fn numbers_render_in_decimal() {
    assert_eq!(u64_to_string(0), "0");
    assert_eq!(u64_to_string(7), "7");
    assert_eq!(u64_to_string(503), "503");
    assert_eq!(u64_to_string(18446744073709551615), "18446744073709551615");
}

#[test]
fn request_trace_lines() {
    let defaults = vec![
        ("user-agent".to_string(), "rs-w3r/1.0".to_string()),
        ("x-static".to_string(), "1".to_string()),
    ];
    let extras = vec![
        ("content-type".to_string(), "application/json".to_string()),
        ("user-agent".to_string(), "other".to_string()),
    ];
    let lines = render_request_lines("GET", "http://example.test", &defaults, &extras);
    assert_eq!(
        lines,
        vec![
            "> GET http://example.test".to_string(),
            "> user-agent: rs-w3r/1.0".to_string(),
            "> x-static: 1".to_string(),
            "> content-type: application/json".to_string(),
        ]
    );
}

#[test]
fn authorization_is_always_redacted() {
    let defaults = vec![("authorization".to_string(), "Basic dTpw".to_string())];
    let extras = vec![("authorization".to_string(), "Basic dTpw".to_string())];
    let lines = render_request_lines("POST", "http://x.test", &defaults, &extras);
    assert_eq!(lines[1], "> authorization: Basic <credentials>");
    assert_eq!(lines.len(), 2);
    let lines2 = render_request_lines("POST", "http://x.test", &Vec::new(), &extras);
    assert_eq!(lines2[1], "> authorization: Basic <credentials>");
}

#[test]
fn response_trace_lines() {
    let headers = vec![
        ("content-type".to_string(), "text/plain".to_string()),
        ("content-length".to_string(), "5".to_string()),
    ];
    let lines = render_response_lines("HTTP/1.1", 200, "OK", &headers);
    assert_eq!(
        lines,
        vec![
            "< HTTP/1.1 200 OK".to_string(),
            "< content-type: text/plain".to_string(),
            "< content-length: 5".to_string(),
        ]
    );
}
