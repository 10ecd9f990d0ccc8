//! The request specification and how it is put together: built-in defaults,
//! a preset from a configuration file, and invocation-time overrides, with
//! the precedence invocation value > preset value > built-in default.

use vstd::prelude::*;
use vstd::string::StringExecFns;

verus! {

/// Retries made by default: none.
pub const DEFAULT_RETRY_COUNT: u32 = 0;

/// Base backoff delay by default, in milliseconds.
pub const DEFAULT_RETRY_DELAY_MS: u64 = 1000;

/// Whole-attempt timeout by default, in seconds.
pub const DEFAULT_TIMEOUT_SECS: u64 = 30;

/// The method used when neither preset nor invocation names one.
pub open spec fn default_method() -> Seq<char> {
    "GET"@
}

/// Credentials for HTTP basic authentication.
#[derive(Debug)]
pub struct BasicAuthConfig {
    pub user: String,
    pub pass: String,
}

/// An HTTP proxy: host, port, and optional credentials.  Partial credentials
/// (only one of user and pass) count as none.
#[derive(Debug)]
pub struct ProxyConfig {
    pub host: String,
    pub port: String,
    pub user: Option<String>,
    pub pass: Option<String>,
}

/// A fully populated request specification.
#[derive(Debug)]
pub struct Config {
    pub basic_auth: Option<BasicAuthConfig>,
    pub cookies: Option<Vec<String>>,
    pub dry_run: bool,
    pub form_data: Option<String>,
    pub form: Option<Vec<String>>,
    pub headers: Option<Vec<String>>,
    pub json: Option<String>,
    pub json_filter: Option<String>,
    pub method: String,
    pub output: Option<String>,
    pub pretty_json: bool,
    pub proxy: Option<ProxyConfig>,
    pub retry: u32,
    pub retry_delay_ms: u64,
    pub silent: bool,
    pub timeout: u64,
    pub timing: bool,
    pub url: String,
    pub verbose: bool,
}

impl Default for Config {
    /// The built-in defaults: a GET with no body, no retries, a second of
    /// base backoff delay and a thirty-second timeout.
    fn default() -> (c: Config)
        ensures
            c.basic_auth is None,
            c.cookies is None,
            !c.dry_run,
            c.form_data is None,
            c.form is None,
            c.headers is None,
            c.json is None,
            c.json_filter is None,
            c.method@ == default_method(),
            c.output is None,
            !c.pretty_json,
            c.proxy is None,
            c.retry == DEFAULT_RETRY_COUNT,
            c.retry_delay_ms == DEFAULT_RETRY_DELAY_MS,
            !c.silent,
            c.timeout == DEFAULT_TIMEOUT_SECS,
            !c.timing,
            c.url@ == Seq::<char>::empty(),
            !c.verbose,
    {
        Config {
            basic_auth: None,
            cookies: None,
            dry_run: false,
            form_data: None,
            form: None,
            headers: None,
            json: None,
            json_filter: None,
            method: String::from_str("GET"),
            output: None,
            pretty_json: false,
            proxy: None,
            retry: DEFAULT_RETRY_COUNT,
            retry_delay_ms: DEFAULT_RETRY_DELAY_MS,
            silent: false,
            timeout: DEFAULT_TIMEOUT_SECS,
            timing: false,
            url: String::new(),
            verbose: false,
        }
    }
}

/// One named preset of a configuration file: every specification field,
/// optional.
#[derive(Debug)]
pub struct ConfigPreset {
    pub basic_auth: Option<BasicAuthConfig>,
    pub cookies: Option<Vec<String>>,
    pub dry_run: Option<bool>,
    pub form_data: Option<String>,
    pub form: Option<Vec<String>>,
    pub headers: Option<Vec<String>>,
    pub json: Option<String>,
    pub json_filter: Option<String>,
    pub method: Option<String>,
    pub output: Option<String>,
    pub pretty_json: Option<bool>,
    pub proxy: Option<ProxyConfig>,
    pub retry: Option<u32>,
    pub retry_delay_ms: Option<u64>,
    pub silent: Option<bool>,
    pub timeout: Option<u64>,
    pub timing: Option<bool>,
    pub url: Option<String>,
    pub verbose: Option<bool>,
}

/// A configuration error: both are fatal before any request is attempted.
#[derive(Debug)]
pub enum ConfigError {
    /// The requested preset is not in the file; holds the requested name.
    PresetNotFound(String),
    /// The file holds no presets at all.
    NoPresets,
}

impl ConfigError {
    /// The error's rendering, as the tool reports it.
    pub fn message(&self) -> (m: String)
        ensures
            (match self {
                ConfigError::PresetNotFound(name) => m@ == "Preset '"@ + name@
                    + "' not found in config file"@,
                ConfigError::NoPresets => m@ == "No presets found in config file"@,
            }),
    {
        match self {
            ConfigError::PresetNotFound(name) => {
                let mut s = String::from_str("Preset '");
                s.append(name.as_str());
                s.append("' not found in config file");
                s
            },
            ConfigError::NoPresets => String::from_str("No presets found in config file"),
        }
    }
}

/// The first preset bearing `name` from position `i` on, if any.
pub open spec fn find_preset(
    ps: Seq<(String, ConfigPreset)>,
    name: Seq<char>,
    i: int,
) -> Option<ConfigPreset>
    decreases ps.len() - i,
{
    if i < 0 || i >= ps.len() {
        None
    } else if ps[i].0@ == name {
        Some(ps[i].1)
    } else {
        find_preset(ps, name, i + 1)
    }
}

/// Picks a preset from the file's list: the first one bearing the requested
/// name, or the first in the list when no name is requested.  A missing name
/// or an empty list is a fatal configuration error.
#[verifier::loop_isolation(false)]
pub fn get_preset(presets: Vec<(String, ConfigPreset)>, preset_name: Option<&str>) -> (r: Result<
    ConfigPreset,
    ConfigError,
>)
    ensures
        (match preset_name {
            Some(n) => (match find_preset(presets@, n@, 0) {
                Some(p) => r == Ok::<ConfigPreset, ConfigError>(p),
                None => (match r {
                    Err(ConfigError::PresetNotFound(m)) => m@ == n@,
                    _ => false,
                }),
            }),
            None => if presets@.len() > 0 {
                r == Ok::<ConfigPreset, ConfigError>(presets@[0].1)
            } else {
                r is Err && (match r {
                    Err(e) => e is NoPresets,
                    _ => false,
                })
            },
        }),
{
    let mut remaining = presets;
    match preset_name {
        Some(n) => {
            let needle = String::from_str(n);
            let ghost ps = remaining@;
            let count = remaining.len();
            let mut j: usize = 0;
            while j < count
                invariant
                    j <= count,
                    count == remaining@.len(),
                    ps == remaining@,
                    ps == presets@,
                    needle@ == n@,
                    find_preset(ps, n@, j as int) == find_preset(ps, n@, 0),
                decreases count - j,
            {
                if remaining[j].0 == needle {
                    proof {
                        assert(find_preset(ps, n@, j as int) == Some(ps[j as int].1));
                    }
                    let pair = remaining.swap_remove(j);
                    return Ok(pair.1);
                }
                j = j + 1;
            }
            Err(ConfigError::PresetNotFound(needle))
        },
        None => {
            if remaining.len() > 0 {
                Ok(remaining.swap_remove(0).1)
            } else {
                Err(ConfigError::NoPresets)
            }
        },
    }
}

/// Fills a specification from one preset: a field the preset gives is taken,
/// every other falls back to the built-in default.
pub fn create_config_from_preset(preset: ConfigPreset) -> (c: Config)
    ensures
        c.basic_auth == preset.basic_auth,
        c.cookies == preset.cookies,
        c.dry_run == (match preset.dry_run {
            Some(b) => b,
            None => false,
        }),
        c.form_data == preset.form_data,
        c.form == preset.form,
        c.headers == preset.headers,
        c.json == preset.json,
        c.json_filter == preset.json_filter,
        (match preset.method {
            Some(m) => c.method == m,
            None => c.method@ == default_method(),
        }),
        c.output == preset.output,
        c.pretty_json == (match preset.pretty_json {
            Some(b) => b,
            None => false,
        }),
        c.proxy == preset.proxy,
        c.retry == (match preset.retry {
            Some(n) => n,
            None => DEFAULT_RETRY_COUNT,
        }),
        c.retry_delay_ms == (match preset.retry_delay_ms {
            Some(n) => n,
            None => DEFAULT_RETRY_DELAY_MS,
        }),
        c.silent == (match preset.silent {
            Some(b) => b,
            None => false,
        }),
        c.timeout == (match preset.timeout {
            Some(n) => n,
            None => DEFAULT_TIMEOUT_SECS,
        }),
        c.timing == (match preset.timing {
            Some(b) => b,
            None => false,
        }),
        (match preset.url {
            Some(u) => c.url == u,
            None => c.url@ == Seq::<char>::empty(),
        }),
        c.verbose == (match preset.verbose {
            Some(b) => b,
            None => false,
        }),
{
    Config {
        basic_auth: preset.basic_auth,
        cookies: preset.cookies,
        dry_run: (match preset.dry_run {
            Some(b) => b,
            None => false,
        }),
        form_data: preset.form_data,
        form: preset.form,
        headers: preset.headers,
        json: preset.json,
        json_filter: preset.json_filter,
        method: (match preset.method {
            Some(m) => m,
            None => String::from_str("GET"),
        }),
        output: preset.output,
        pretty_json: (match preset.pretty_json {
            Some(b) => b,
            None => false,
        }),
        proxy: preset.proxy,
        retry: (match preset.retry {
            Some(n) => n,
            None => DEFAULT_RETRY_COUNT,
        }),
        retry_delay_ms: (match preset.retry_delay_ms {
            Some(n) => n,
            None => DEFAULT_RETRY_DELAY_MS,
        }),
        silent: (match preset.silent {
            Some(b) => b,
            None => false,
        }),
        timeout: (match preset.timeout {
            Some(n) => n,
            None => DEFAULT_TIMEOUT_SECS,
        }),
        timing: (match preset.timing {
            Some(b) => b,
            None => false,
        }),
        url: (match preset.url {
            Some(u) => u,
            None => String::new(),
        }),
        verbose: (match preset.verbose {
            Some(b) => b,
            None => false,
        }),
    }
}

/// The invocation-time values: a field is given (`Some`, or a set flag) only
/// when the invocation names it explicitly.
#[derive(Debug)]
pub struct Overrides {
    pub basic_user: Option<String>,
    pub basic_pass: Option<String>,
    pub cookies: Option<Vec<String>>,
    pub dry_run: bool,
    pub form_data: Option<String>,
    pub form: Option<Vec<String>>,
    pub headers: Option<Vec<String>>,
    pub json: Option<String>,
    pub json_filter: Option<String>,
    pub method: Option<String>,
    pub output: Option<String>,
    pub pretty_json: bool,
    pub proxy_host: Option<String>,
    pub proxy_port: Option<String>,
    pub proxy_user: Option<String>,
    pub proxy_pass: Option<String>,
    pub retry: Option<u32>,
    pub retry_delay_ms: Option<u64>,
    pub silent: bool,
    pub timeout: Option<u64>,
    pub timing: bool,
    pub url: Option<String>,
    pub verbose: bool,
}

/// Lays the invocation-time values over a specification: a given value wins,
/// an absent one leaves the field as it was; a set flag sets the field, an
/// unset flag leaves it.  Basic-auth and proxy need both of their parts;
/// partial credentials count as absent.
pub fn apply_args_to_config(config: Config, args: Overrides) -> (c: Config)
    ensures
        c.basic_auth == (match (args.basic_user, args.basic_pass) {
            (Some(u), Some(p)) => Some((BasicAuthConfig { user: u, pass: p })),
            _ => config.basic_auth,
        }),
        c.cookies == (match args.cookies {
            Some(x) => Some(x),
            None => config.cookies,
        }),
        c.dry_run == (config.dry_run || args.dry_run),
        c.form_data == (match args.form_data {
            Some(x) => Some(x),
            None => config.form_data,
        }),
        c.form == (match args.form {
            Some(x) => Some(x),
            None => config.form,
        }),
        c.headers == (match args.headers {
            Some(x) => Some(x),
            None => config.headers,
        }),
        c.json == (match args.json {
            Some(x) => Some(x),
            None => config.json,
        }),
        c.json_filter == (match args.json_filter {
            Some(x) => Some(x),
            None => config.json_filter,
        }),
        c.method == (match args.method {
            Some(m) => m,
            None => config.method,
        }),
        c.output == (match args.output {
            Some(x) => Some(x),
            None => config.output,
        }),
        c.pretty_json == (config.pretty_json || args.pretty_json),
        c.proxy == (match (args.proxy_host, args.proxy_port) {
            (Some(h), Some(p)) => Some(
                (ProxyConfig { host: h, port: p, user: args.proxy_user, pass: args.proxy_pass }),
            ),
            _ => config.proxy,
        }),
        c.retry == (match args.retry {
            Some(n) => n,
            None => config.retry,
        }),
        c.retry_delay_ms == (match args.retry_delay_ms {
            Some(n) => n,
            None => config.retry_delay_ms,
        }),
        c.silent == (config.silent || args.silent),
        c.timeout == (match args.timeout {
            Some(n) => n,
            None => config.timeout,
        }),
        c.timing == (config.timing || args.timing),
        c.url == (match args.url {
            Some(u) => u,
            None => config.url,
        }),
        c.verbose == (config.verbose || args.verbose),
{
    Config {
        basic_auth: (match (args.basic_user, args.basic_pass) {
            (Some(u), Some(p)) => Some(BasicAuthConfig { user: u, pass: p }),
            _ => config.basic_auth,
        }),
        cookies: (match args.cookies {
            Some(x) => Some(x),
            None => config.cookies,
        }),
        dry_run: config.dry_run || args.dry_run,
        form_data: (match args.form_data {
            Some(x) => Some(x),
            None => config.form_data,
        }),
        form: (match args.form {
            Some(x) => Some(x),
            None => config.form,
        }),
        headers: (match args.headers {
            Some(x) => Some(x),
            None => config.headers,
        }),
        json: (match args.json {
            Some(x) => Some(x),
            None => config.json,
        }),
        json_filter: (match args.json_filter {
            Some(x) => Some(x),
            None => config.json_filter,
        }),
        method: (match args.method {
            Some(m) => m,
            None => config.method,
        }),
        output: (match args.output {
            Some(x) => Some(x),
            None => config.output,
        }),
        pretty_json: config.pretty_json || args.pretty_json,
        proxy: (match (args.proxy_host, args.proxy_port) {
            (Some(h), Some(p)) => Some(
                ProxyConfig { host: h, port: p, user: args.proxy_user, pass: args.proxy_pass },
            ),
            _ => config.proxy,
        }),
        retry: (match args.retry {
            Some(n) => n,
            None => config.retry,
        }),
        retry_delay_ms: (match args.retry_delay_ms {
            Some(n) => n,
            None => config.retry_delay_ms,
        }),
        silent: config.silent || args.silent,
        timeout: (match args.timeout {
            Some(n) => n,
            None => config.timeout,
        }),
        timing: config.timing || args.timing,
        url: (match args.url {
            Some(u) => u,
            None => config.url,
        }),
        verbose: config.verbose || args.verbose,
    }
}

/// Checks that a specification names a target: a missing URL is a fatal
/// configuration error, reported before any request is attempted.
pub fn validate_config(config: &Config) -> (r: Result<(), String>)
    ensures
        r is Ok <==> config.url@.len() > 0,
        (match r {
            Err(m) => m@ == "URL is required. Use -u/--url option or specify in config file."@,
            Ok(_) => true,
        }),
{
    if config.url.as_str().is_empty() {
        Err(String::from_str("URL is required. Use -u/--url option or specify in config file."))
    } else {
        Ok(())
    }
}

/// Law: the effective method follows the precedence invocation value >
/// preset value > built-in default.  Any specification built by
/// `create_config_from_preset` and then overridden by `apply_args_to_config`
/// (their contracts are this lemma's premises) carries, in order: the
/// invocation's method where one was given; else the preset's where the
/// preset gives one; else the default.
pub proof fn lemma_method_precedence(p: ConfigPreset, args: Overrides, merged: Config, eff: Config)
    requires
        (match p.method {
            Some(m) => merged.method == m,
            None => merged.method@ == default_method(),
        }),
        eff.method == (match args.method {
            Some(m) => m,
            None => merged.method,
        }),
    ensures
        (match args.method {
            Some(m) => eff.method == m,
            None => (match p.method {
                Some(m) => eff.method == m,
                None => eff.method@ == default_method(),
            }),
        }),
{
}

} // verus!
