use rs_w3r::config::{
    apply_args_to_config, create_config_from_preset, get_preset, validate_config, Config,
    ConfigError, ConfigPreset, Overrides,
};

fn empty_preset() -> ConfigPreset {
    ConfigPreset {
        basic_auth: None,
        cookies: None,
        dry_run: None,
        form_data: None,
        form: None,
        headers: None,
        json: None,
        json_filter: None,
        method: None,
        output: None,
        pretty_json: None,
        proxy: None,
        retry: None,
        retry_delay_ms: None,
        silent: None,
        timeout: None,
        timing: None,
        url: None,
        verbose: None,
    }
}

fn no_overrides() -> Overrides {
    Overrides {
        basic_user: None,
        basic_pass: None,
        cookies: None,
        dry_run: false,
        form_data: None,
        form: None,
        headers: None,
        json: None,
        json_filter: None,
        method: None,
        output: None,
        pretty_json: false,
        proxy_host: None,
        proxy_port: None,
        proxy_user: None,
        proxy_pass: None,
        retry: None,
        retry_delay_ms: None,
        silent: false,
        timeout: None,
        timing: false,
        url: None,
        verbose: false,
    }
}

#[test]
fn builtin_defaults() {
    let c = Config::default();
    assert_eq!(c.method, "GET");
    assert_eq!(c.retry, 0);
    assert_eq!(c.retry_delay_ms, 1000);
    assert_eq!(c.timeout, 30);
    assert_eq!(c.url, "");
    assert!(!c.verbose && !c.silent && !c.timing && !c.pretty_json && !c.dry_run);
}

#[test]
fn preset_method_applies_when_invocation_passes_none() {
    // Preset sets method=POST; the invocation passes no method: POST wins.
    let mut p = empty_preset();
    p.method = Some("POST".to_string());
    let merged = create_config_from_preset(p);
    let effective = apply_args_to_config(merged, no_overrides());
    assert_eq!(effective.method, "POST");
}

#[test]
fn explicit_method_overrides_preset() {
    // Preset sets method=POST; the invocation passes GET explicitly: GET wins.
    let mut p = empty_preset();
    p.method = Some("POST".to_string());
    let merged = create_config_from_preset(p);
    let mut over = no_overrides();
    over.method = Some("GET".to_string());
    let effective = apply_args_to_config(merged, over);
    assert_eq!(effective.method, "GET");
}

#[test]
fn preset_fields_fall_back_to_defaults() {
    let c = create_config_from_preset(empty_preset());
    assert_eq!(c.method, "GET");
    assert_eq!(c.retry, 0);
    assert_eq!(c.retry_delay_ms, 1000);
    assert_eq!(c.timeout, 30);
    assert_eq!(c.url, "");
}

#[test]
fn overrides_apply_field_by_field() {
    let mut over = no_overrides();
    over.url = Some("http://example.test".to_string());
    over.retry = Some(7);
    over.verbose = true;
    let c = apply_args_to_config(Config::default(), over);
    assert_eq!(c.url, "http://example.test");
    assert_eq!(c.retry, 7);
    assert!(c.verbose);
    assert_eq!(c.method, "GET");
}

#[test]
fn partial_basic_auth_counts_as_absent() {
    let mut over = no_overrides();
    over.basic_user = Some("alice".to_string());
    let c = apply_args_to_config(Config::default(), over);
    assert!(c.basic_auth.is_none());
}

#[test]
fn partial_proxy_counts_as_absent() {
    let mut over = no_overrides();
    over.proxy_host = Some("proxy.test".to_string());
    let c = apply_args_to_config(Config::default(), over);
    assert!(c.proxy.is_none());
}

#[test]
fn full_proxy_keeps_optional_credentials() {
    let mut over = no_overrides();
    over.proxy_host = Some("proxy.test".to_string());
    over.proxy_port = Some("8080".to_string());
    over.proxy_user = Some("u".to_string());
    let c = apply_args_to_config(Config::default(), over);
    let p = c.proxy.unwrap();
    assert_eq!(p.host, "proxy.test");
    assert_eq!(p.port, "8080");
    assert_eq!(p.user.as_deref(), Some("u"));
    assert!(p.pass.is_none());
}

#[test]
fn named_preset_is_found() {
    let mut p = empty_preset();
    p.url = Some("http://a.test".to_string());
    let presets = vec![("first".to_string(), empty_preset()), ("mine".to_string(), p)];
    let got = get_preset(presets, Some("mine")).unwrap();
    assert_eq!(got.url.as_deref(), Some("http://a.test"));
}

#[test]
fn missing_preset_is_a_fatal_error() {
    let presets = vec![("only".to_string(), empty_preset())];
    let err = get_preset(presets, Some("other")).unwrap_err();
    assert_eq!(
        err.message(),
        "Preset 'other' not found in config file"
    );
}

#[test]
fn unnamed_request_takes_the_first_preset() {
    let mut p = empty_preset();
    p.url = Some("http://first.test".to_string());
    let presets = vec![("a".to_string(), p), ("b".to_string(), empty_preset())];
    let got = get_preset(presets, None).unwrap();
    assert_eq!(got.url.as_deref(), Some("http://first.test"));
}

#[test]
fn empty_preset_list_is_a_fatal_error() {
    let err = get_preset(Vec::new(), None).unwrap_err();
    assert!(matches!(err, ConfigError::NoPresets));
    assert_eq!(err.message(), "No presets found in config file");
}

#[test]
fn missing_url_is_rejected() {
    let c = Config::default();
    let err = validate_config(&c).unwrap_err();
    assert_eq!(
        err,
        "URL is required. Use -u/--url option or specify in config file."
    );
    let mut over = no_overrides();
    over.url = Some("http://x.test".to_string());
    let c2 = apply_args_to_config(Config::default(), over);
    assert!(validate_config(&c2).is_ok());
}
