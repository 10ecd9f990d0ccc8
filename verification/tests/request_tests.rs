use rs_w3r::request::{
    content_type_for, method_token, output_route, parse_form_params, parse_method, proxy_auth,
    proxy_url, resolve_body, BodyChoice, HttpMethod, OutputRoute,
};

#[test]
fn the_six_methods_parse() {
    assert_eq!(parse_method("GET"), Some(HttpMethod::Get));
    assert_eq!(parse_method("POST"), Some(HttpMethod::Post));
    assert_eq!(parse_method("PUT"), Some(HttpMethod::Put));
    assert_eq!(parse_method("DELETE"), Some(HttpMethod::Delete));
    assert_eq!(parse_method("HEAD"), Some(HttpMethod::Head));
    assert_eq!(parse_method("PATCH"), Some(HttpMethod::Patch));
}

#[test]
fn unknown_methods_are_refused() {
    assert_eq!(parse_method("get"), None);
    assert_eq!(parse_method("OPTIONS"), None);
    assert_eq!(parse_method("GETX"), None);
    assert_eq!(parse_method(""), None);
}

#[test]
fn method_tokens_round_trip() {
    for m in [
        HttpMethod::Get,
        HttpMethod::Post,
        HttpMethod::Put,
        HttpMethod::Delete,
        HttpMethod::Head,
        HttpMethod::Patch,
    ] {
        assert_eq!(parse_method(method_token(&m)), Some(m));
    }
}

#[test]
fn form_params_split_at_the_first_equals() {
    let params = vec![
        "a=1".to_string(),
        "b=2".to_string(),
        "junk".to_string(),
        "c=d=e".to_string(),
        "=v".to_string(),
    ];
    let pairs = parse_form_params(&params);
    assert_eq!(
        pairs,
        vec![
            ("a".to_string(), "1".to_string()),
            ("b".to_string(), "2".to_string()),
            ("c".to_string(), "d=e".to_string()),
            ("".to_string(), "v".to_string()),
        ]
    );
}

#[test]
fn raw_body_takes_precedence() {
    let b = resolve_body(
        Some("x=raw".to_string()),
        Some(vec!["a=1".to_string()]),
        Some("{\"j\":1}".to_string()),
    );
    assert_eq!(b, BodyChoice::Raw("x=raw".to_string()));
}

#[test]
fn form_body_beats_json() {
    let b = resolve_body(None, Some(vec!["a=1".to_string()]), Some("{}".to_string()));
    assert_eq!(
        b,
        BodyChoice::Form(vec![("a".to_string(), "1".to_string())])
    );
}

#[test]
fn json_body_applies_last() {
    let b = resolve_body(None, None, Some("{\"j\":1}".to_string()));
    assert_eq!(b, BodyChoice::Json("{\"j\":1}".to_string()));
}

#[test]
fn no_body_without_any_source() {
    assert_eq!(resolve_body(None, None, None), BodyChoice::NoBody);
}

#[test]
fn content_types_per_body() {
    assert_eq!(content_type_for(&BodyChoice::NoBody), None);
    assert_eq!(
        content_type_for(&BodyChoice::Raw("x".to_string())),
        Some("application/x-www-form-urlencoded")
    );
    assert_eq!(
        content_type_for(&BodyChoice::Form(vec![])),
        Some("application/x-www-form-urlencoded")
    );
    assert_eq!(
        content_type_for(&BodyChoice::Json("1".to_string())),
        Some("application/json; charset=utf-8")
    );
}

#[test]
fn proxy_target_shape() {
    assert_eq!(proxy_url("proxy.test", "8080"), "https://proxy.test:8080");
}

#[test]
fn partial_proxy_credentials_count_as_absent() {
    assert_eq!(proxy_auth(Some("u".to_string()), None), None);
    assert_eq!(proxy_auth(None, Some("p".to_string())), None);
    assert_eq!(
        proxy_auth(Some("u".to_string()), Some("p".to_string())),
        Some(("u".to_string(), "p".to_string()))
    );
}

#[test]
fn output_routing() {
    assert_eq!(
        output_route(Some("out.txt".to_string()), true),
        OutputRoute::File("out.txt".to_string())
    );
    assert_eq!(output_route(None, false), OutputRoute::Stdout);
    assert_eq!(output_route(None, true), OutputRoute::Discard);
}
