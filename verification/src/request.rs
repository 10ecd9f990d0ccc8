//! Turning a request specification into the pieces of one immutable request:
//! the method token, the body chosen by precedence, form fields, the proxy
//! target and its credentials, and where the processed body is routed.

use vstd::prelude::*;
use vstd::string::StrSliceExecFns;
use vstd::string::StringExecFns;

use crate::path::find_char;
use crate::path::find_char_str;
use crate::strutil::lemma_pairs_of_push;
use crate::strutil::str_eq;
use crate::strutil::pairs_of;

verus! {

broadcast use vstd::seq::group_seq_axioms;

/// The methods a request may carry.
#[derive(Debug, PartialEq, Eq, Structural, Clone, Copy)]
pub enum HttpMethod {
    Get,
    Post,
    Put,
    Delete,
    Head,
    Patch,
}

/// Which method a token names: exactly one of the six upper-case tokens;
/// anything else is refused before any network attempt.
pub open spec fn spec_parse_method(m: Seq<char>) -> Option<HttpMethod> {
    if m == "GET"@ {
        Some(HttpMethod::Get)
    } else if m == "POST"@ {
        Some(HttpMethod::Post)
    } else if m == "PUT"@ {
        Some(HttpMethod::Put)
    } else if m == "DELETE"@ {
        Some(HttpMethod::Delete)
    } else if m == "HEAD"@ {
        Some(HttpMethod::Head)
    } else if m == "PATCH"@ {
        Some(HttpMethod::Patch)
    } else {
        None
    }
}

/// Reads the method token of a specification; none for an unknown method,
/// which is fatal, with no network call made.
pub fn parse_method(method: &str) -> (r: Option<HttpMethod>)
    ensures
        r == spec_parse_method(method@),
{
    if str_eq(method, "GET") {
        Some(HttpMethod::Get)
    } else if str_eq(method, "POST") {
        Some(HttpMethod::Post)
    } else if str_eq(method, "PUT") {
        Some(HttpMethod::Put)
    } else if str_eq(method, "DELETE") {
        Some(HttpMethod::Delete)
    } else if str_eq(method, "HEAD") {
        Some(HttpMethod::Head)
    } else if str_eq(method, "PATCH") {
        Some(HttpMethod::Patch)
    } else {
        None
    }
}

/// The method's token.
pub fn method_token(m: &HttpMethod) -> (r: &'static str)
    ensures
        (match m {
            HttpMethod::Get => r@ == "GET"@,
            HttpMethod::Post => r@ == "POST"@,
            HttpMethod::Put => r@ == "PUT"@,
            HttpMethod::Delete => r@ == "DELETE"@,
            HttpMethod::Head => r@ == "HEAD"@,
            HttpMethod::Patch => r@ == "PATCH"@,
        }),
{
    match m {
        HttpMethod::Get => "GET",
        HttpMethod::Post => "POST",
        HttpMethod::Put => "PUT",
        HttpMethod::Delete => "DELETE",
        HttpMethod::Head => "HEAD",
        HttpMethod::Patch => "PATCH",
    }
}

/// The form pairs of the entries from `i` on: each entry is split at its
/// first `=`; an entry without one is dropped.
pub open spec fn spec_form_pairs(entries: Seq<String>, i: int) -> Seq<(Seq<char>, Seq<char>)>
    decreases entries.len() - i,
{
    if i < 0 || i >= entries.len() {
        Seq::empty()
    } else {
        let e = entries[i]@;
        let c = find_char(e, '=', 0);
        let rest = spec_form_pairs(entries, i + 1);
        if c == e.len() {
            rest
        } else {
            seq![(e.subrange(0, c), e.subrange(c + 1, e.len() as int))] + rest
        }
    }
}

/// Splits each `key=value` entry at its first `=` into one form pair;
/// entries without `=` are dropped.
#[verifier::loop_isolation(false)]
pub fn parse_form_params(form_params: &[String]) -> (r: Vec<(String, String)>)
    ensures
        pairs_of(r@, 0) == spec_form_pairs(form_params@, 0),
{
    let count = form_params.len();
    let mut out: Vec<(String, String)> = Vec::new();
    proof {
        assert(pairs_of(out@, 0) + spec_form_pairs(form_params@, 0) =~= spec_form_pairs(
            form_params@,
            0,
        ));
    }
    let mut i: usize = 0;
    while i < count
        invariant
            i <= count,
            count == form_params@.len(),
            pairs_of(out@, 0) + spec_form_pairs(form_params@, i as int) == spec_form_pairs(
                form_params@,
                0,
            ),
        decreases count - i,
    {
        let e = &form_params[i];
        let n = e.as_str().unicode_len();
        let c = find_char_str(e.as_str(), '=');
        if c < n {
            let key = String::from_str(e.as_str().substring_char(0, c));
            let value = String::from_str(e.as_str().substring_char(c + 1, n));
            proof {
                lemma_pairs_of_push(out@, (key, value), 0);
            }
            out.push((key, value));
        }
        i = i + 1;
        proof {
            assert(pairs_of(out@, 0) + spec_form_pairs(form_params@, i as int) =~= spec_form_pairs(
                form_params@,
                0,
            ));
        }
    }
    out
}

/// The body a specification carries, picked by precedence: an explicit raw
/// body first, else the form field list, else the JSON value, else none.
#[derive(Debug, PartialEq, Eq)]
pub enum BodyChoice {
    NoBody,
    Raw(String),
    Form(Vec<(String, String)>),
    Json(String),
}

/// Picks the request body: raw body > form fields > JSON value; only the
/// first present one applies.
pub fn resolve_body(form_data: Option<String>, form: Option<Vec<String>>, json: Option<String>) -> (b:
    BodyChoice)
    ensures
        (match form_data {
            Some(s) => b == BodyChoice::Raw(s),
            None => (match form {
                Some(entries) => b is Form && pairs_of(b->Form_0@, 0) == spec_form_pairs(
                    entries@,
                    0,
                ),
                None => (match json {
                    Some(j) => b == BodyChoice::Json(j),
                    None => b == BodyChoice::NoBody,
                }),
            }),
        }),
{
    match form_data {
        Some(s) => BodyChoice::Raw(s),
        None => match form {
            Some(entries) => BodyChoice::Form(parse_form_params(entries.as_slice())),
            None => match json {
                Some(j) => BodyChoice::Json(j),
                None => BodyChoice::NoBody,
            },
        },
    }
}

/// The content type a body sets: form-encoded for a raw or form body, JSON
/// with UTF-8 charset for a JSON body, none without a body.
pub fn content_type_for(b: &BodyChoice) -> (r: Option<&'static str>)
    ensures
        (match b {
            BodyChoice::NoBody => r is None,
            BodyChoice::Raw(_) => r is Some && r.unwrap()@
                == "application/x-www-form-urlencoded"@,
            BodyChoice::Form(_) => r is Some && r.unwrap()@
                == "application/x-www-form-urlencoded"@,
            BodyChoice::Json(_) => r is Some && r.unwrap()@ == "application/json; charset=utf-8"@,
        }),
{
    match b {
        BodyChoice::NoBody => None,
        BodyChoice::Raw(_) => Some("application/x-www-form-urlencoded"),
        BodyChoice::Form(_) => Some("application/x-www-form-urlencoded"),
        BodyChoice::Json(_) => Some("application/json; charset=utf-8"),
    }
}

/// The proxy target built from a proxy's host and port.
pub fn proxy_url(host: &str, port: &str) -> (r: String)
    ensures
        r@ == "https://"@ + host@ + ":"@ + port@,
{
    let mut s = String::from_str("https://");
    s.append(host);
    s.append(":");
    s.append(port);
    proof {
        assert(s@ =~= "https://"@ + host@ + ":"@ + port@);
    }
    s
}

/// The proxy credentials: both of user and pass, or none at all — partial
/// credentials are silently treated as absent, not an error.
pub fn proxy_auth(user: Option<String>, pass: Option<String>) -> (r: Option<(String, String)>)
    ensures
        r == (match (user, pass) {
            (Some(u), Some(p)) => Some((u, p)),
            _ => None::<(String, String)>,
        }),
{
    match (user, pass) {
        (Some(u), Some(p)) => Some((u, p)),
        _ => None,
    }
}

/// Where the processed body goes.
#[derive(Debug, PartialEq, Eq)]
pub enum OutputRoute {
    /// Written to the named file, silent or not.
    File(String),
    /// Printed to standard output.
    Stdout,
    /// Computed but written nowhere.
    Discard,
}

/// Routes the processed body: a named output target always receives it;
/// without one it is printed, unless silent, which discards it.
pub fn output_route(output: Option<String>, silent: bool) -> (r: OutputRoute)
    ensures
        r == (match output {
            Some(f) => OutputRoute::File(f),
            None => if silent {
                OutputRoute::Discard
            } else {
                OutputRoute::Stdout
            }
        }),
{
    match output {
        Some(f) => OutputRoute::File(f),
        None => if silent {
            OutputRoute::Discard
        } else {
            OutputRoute::Stdout
        },
    }
}

} // verus!
