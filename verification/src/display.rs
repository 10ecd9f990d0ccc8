//! The verbose trace: the request line with every header the transport or
//! the request attaches (the Authorization value always as a redacted
//! placeholder, never the credential), and the response status line with the
//! response headers.  Transport defaults and request-level headers are merged
//! with set semantics, so no header is reported twice.

use vstd::prelude::*;
use vstd::string::StrSliceExecFns;
use vstd::string::StringExecFns;

use crate::strutil::lemma_pairs_of_index;
use crate::strutil::lemma_pairs_of_len;
use crate::strutil::lemma_strs_of_push;
use crate::strutil::pairs_of;
use crate::strutil::push_char;
use crate::strutil::str_eq;
use crate::strutil::strs_of;

verus! {

broadcast use vstd::seq::group_seq_axioms;

/// The decimal digit for a value below ten.
pub open spec fn digit_char(n: nat) -> char {
    ((48 + n) as u8) as char
}

/// The decimal rendering of a number.
pub open spec fn dec_digits(n: nat) -> Seq<char>
    decreases n,
{
    if n < 10 {
        seq![digit_char(n)]
    } else {
        dec_digits(n / 10).push(digit_char(n % 10))
    }
}

/// Renders a number in decimal.
pub fn u64_to_string(n: u64) -> (r: String)
    ensures
        r@ == dec_digits(n as nat),
    decreases n,
{
    if n < 10 {
        let mut s = String::new();
        push_char(&mut s, ((48 + n as u32) as u8) as char);
        proof {
            assert(s@ =~= dec_digits(n as nat));
        }
        s
    } else {
        let mut s = u64_to_string(n / 10);
        push_char(&mut s, ((48 + (n % 10) as u32) as u8) as char);
        proof {
            assert(s@ =~= dec_digits(n as nat));
        }
        s
    }
}

/// One header line of the request trace; the Authorization value is a
/// redacted placeholder, never the credential.
pub open spec fn request_header_line(name: Seq<char>, value: Seq<char>) -> Seq<char> {
    "> "@ + name + ": "@ + (if name == "authorization"@ {
        "Basic <credentials>"@
    } else {
        value
    })
}

/// Whether some header of the list bears this name.
pub open spec fn contains_name(hs: Seq<(Seq<char>, Seq<char>)>, name: Seq<char>) -> bool {
    exists|k: int| 0 <= k < hs.len() && hs[k].0 == name
}

/// The trace lines of the headers from `i` on.
pub open spec fn header_lines(hs: Seq<(Seq<char>, Seq<char>)>, i: int) -> Seq<Seq<char>>
    decreases hs.len() - i,
{
    if i < 0 || i >= hs.len() {
        Seq::empty()
    } else {
        seq![request_header_line(hs[i].0, hs[i].1)] + header_lines(hs, i + 1)
    }
}

/// The trace lines of the request-level headers from `i` on, skipping any
/// name the transport defaults already report.
pub open spec fn extra_header_lines(
    hs: Seq<(Seq<char>, Seq<char>)>,
    defaults: Seq<(Seq<char>, Seq<char>)>,
    i: int,
) -> Seq<Seq<char>>
    decreases hs.len() - i,
{
    if i < 0 || i >= hs.len() {
        Seq::empty()
    } else {
        (if contains_name(defaults, hs[i].0) {
            Seq::empty()
        } else {
            seq![request_header_line(hs[i].0, hs[i].1)]
        }) + extra_header_lines(hs, defaults, i + 1)
    }
}

/// The whole request trace: the request line, then one line per transport
/// default header, then one per request-level header not among the defaults.
pub open spec fn spec_request_lines(
    method: Seq<char>,
    url: Seq<char>,
    defaults: Seq<(Seq<char>, Seq<char>)>,
    extras: Seq<(Seq<char>, Seq<char>)>,
) -> Seq<Seq<char>> {
    seq![("> "@ + method + " "@ + url)] + header_lines(defaults, 0) + extra_header_lines(
        extras,
        defaults,
        0,
    )
}

/// Builds one trace line for a header.
fn build_header_line(name: &String, value: &String) -> (r: String)
    ensures
        r@ == request_header_line(name@, value@),
{
    let mut s = String::from_str("> ");
    s.append(name.as_str());
    s.append(": ");
    if str_eq(name.as_str(), "authorization") {
        s.append("Basic <credentials>");
    } else {
        s.append(value.as_str());
    }
    proof {
        assert(s@ =~= request_header_line(name@, value@));
    }
    s
}

/// Whether some header of the list bears this name.
fn contains_name_exec(hs: &Vec<(String, String)>, name: &String) -> (r: bool)
    ensures
        r == contains_name(pairs_of(hs@, 0), name@),
{
    let count = hs.len();
    proof {
        lemma_pairs_of_len(hs@, 0);
    }
    let mut i: usize = 0;
    while i < count
        invariant
            i <= count,
            count == hs@.len(),
            pairs_of(hs@, 0).len() == count,
            forall|k: int| 0 <= k < i ==> pairs_of(hs@, 0)[k].0 != name@,
        decreases count - i,
    {
        proof {
            lemma_pairs_of_index(hs@, 0, i as int);
        }
        if str_eq(hs[i].0.as_str(), name.as_str()) {
            proof {
                assert(pairs_of(hs@, 0)[i as int].0 == name@);
            }
            return true;
        }
        i = i + 1;
    }
    false
}

/// Builds the verbose request trace: the request line, the transport default
/// headers, and the request-level headers not among the defaults, the
/// Authorization value always redacted.
#[verifier::loop_isolation(false)]
pub fn render_request_lines(
    method: &str,
    url: &str,
    defaults: &Vec<(String, String)>,
    extras: &Vec<(String, String)>,
) -> (r: Vec<String>)
    ensures
        strs_of(r@, 0) == spec_request_lines(method@, url@, pairs_of(defaults@, 0), pairs_of(extras@, 0)),
{
    let ghost dm = pairs_of(defaults@, 0);
    let ghost em = pairs_of(extras@, 0);
    let mut out: Vec<String> = Vec::new();
    let mut first = String::from_str("> ");
    first.append(method);
    first.append(" ");
    first.append(url);
    proof {
        assert(first@ =~= "> "@ + method@ + " "@ + url@);
        lemma_strs_of_push(out@, first, 0);
    }
    out.push(first);
    proof {
        assert(strs_of(out@, 0) =~= seq![("> "@ + method@ + " "@ + url@)]);
        lemma_pairs_of_len(defaults@, 0);
        lemma_pairs_of_len(extras@, 0);
    }
    let dcount = defaults.len();
    let mut i: usize = 0;
    while i < dcount
        invariant
            i <= dcount,
            dcount == defaults@.len(),
            dm == pairs_of(defaults@, 0),
            dm.len() == dcount,
            strs_of(out@, 0) + header_lines(dm, i as int) == seq![
                ("> "@ + method@ + " "@ + url@),
            ] + header_lines(dm, 0),
        decreases dcount - i,
    {
        proof {
            lemma_pairs_of_index(defaults@, 0, i as int);
        }
        let line = build_header_line(&defaults[i].0, &defaults[i].1);
        proof {
            lemma_strs_of_push(out@, line, 0);
        }
        out.push(line);
        proof {
            assert(strs_of(out@, 0) + header_lines(dm, i + 1) =~= seq![
                ("> "@ + method@ + " "@ + url@),
            ] + header_lines(dm, 0));
        }
        i = i + 1;
    }
    let ecount = extras.len();
    let mut j: usize = 0;
    proof {
        assert(strs_of(out@, 0) + extra_header_lines(em, dm, 0) =~= seq![
            ("> "@ + method@ + " "@ + url@),
        ] + header_lines(dm, 0) + extra_header_lines(em, dm, 0));
    }
    while j < ecount
        invariant
            j <= ecount,
            ecount == extras@.len(),
            em == pairs_of(extras@, 0),
            dm == pairs_of(defaults@, 0),
            em.len() == ecount,
            strs_of(out@, 0) + extra_header_lines(em, dm, j as int) == seq![
                ("> "@ + method@ + " "@ + url@),
            ] + header_lines(dm, 0) + extra_header_lines(em, dm, 0),
        decreases ecount - j,
    {
        proof {
            lemma_pairs_of_index(extras@, 0, j as int);
        }
        if !contains_name_exec(defaults, &extras[j].0) {
            let line = build_header_line(&extras[j].0, &extras[j].1);
            proof {
                lemma_strs_of_push(out@, line, 0);
            }
            out.push(line);
        }
        proof {
            assert(strs_of(out@, 0) + extra_header_lines(em, dm, j + 1) =~= seq![
                ("> "@ + method@ + " "@ + url@),
            ] + header_lines(dm, 0) + extra_header_lines(em, dm, 0));
        }
        j = j + 1;
    }
    proof {
        assert(strs_of(out@, 0) =~= spec_request_lines(method@, url@, dm, em));
    }
    out
}

/// One header line of the response trace.
pub open spec fn response_header_line(name: Seq<char>, value: Seq<char>) -> Seq<char> {
    "< "@ + name + ": "@ + value
}

/// The response trace lines of the headers from `i` on.
pub open spec fn response_header_lines(hs: Seq<(Seq<char>, Seq<char>)>, i: int) -> Seq<Seq<char>>
    decreases hs.len() - i,
{
    if i < 0 || i >= hs.len() {
        Seq::empty()
    } else {
        seq![response_header_line(hs[i].0, hs[i].1)] + response_header_lines(hs, i + 1)
    }
}

/// The whole response trace: the status line (version, code, reason), then
/// one line per response header.
pub open spec fn spec_response_lines(
    version: Seq<char>,
    status: nat,
    reason: Seq<char>,
    headers: Seq<(Seq<char>, Seq<char>)>,
) -> Seq<Seq<char>> {
    seq![("< "@ + version + " "@ + dec_digits(status) + " "@ + reason)] + response_header_lines(
        headers,
        0,
    )
}

/// Builds the verbose response trace.
#[verifier::loop_isolation(false)]
pub fn render_response_lines(
    version: &str,
    status: u16,
    reason: &str,
    headers: &Vec<(String, String)>,
) -> (r: Vec<String>)
    ensures
        strs_of(r@, 0) == spec_response_lines(
            version@,
            status as nat,
            reason@,
            pairs_of(headers@, 0),
        ),
{
    let ghost hm = pairs_of(headers@, 0);
    let mut out: Vec<String> = Vec::new();
    let mut first = String::from_str("< ");
    first.append(version);
    first.append(" ");
    let code = u64_to_string(status as u64);
    first.append(code.as_str());
    first.append(" ");
    first.append(reason);
    let ghost status_line = "< "@ + version@ + " "@ + dec_digits(status as nat) + " "@ + reason@;
    proof {
        assert(first@ =~= status_line);
        lemma_strs_of_push(out@, first, 0);
    }
    out.push(first);
    proof {
        assert(strs_of(out@, 0) =~= seq![status_line]);
        lemma_pairs_of_len(headers@, 0);
    }
    let count = headers.len();
    let mut i: usize = 0;
    while i < count
        invariant
            i <= count,
            count == headers@.len(),
            hm == pairs_of(headers@, 0),
            hm.len() == count,
            strs_of(out@, 0) + response_header_lines(hm, i as int) == seq![status_line]
                + response_header_lines(hm, 0),
        decreases count - i,
    {
        proof {
            lemma_pairs_of_index(headers@, 0, i as int);
        }
        let mut line = String::from_str("< ");
        line.append(headers[i].0.as_str());
        line.append(": ");
        line.append(headers[i].1.as_str());
        proof {
            assert(line@ =~= response_header_line(hm[i as int].0, hm[i as int].1));
            lemma_strs_of_push(out@, line, 0);
        }
        out.push(line);
        proof {
            assert(strs_of(out@, 0) + response_header_lines(hm, i + 1) =~= seq![status_line]
                + response_header_lines(hm, 0));
        }
        i = i + 1;
    }
    proof {
        assert(strs_of(out@, 0) =~= spec_response_lines(version@, status as nat, reason@, hm));
    }
    out
}

} // verus!
