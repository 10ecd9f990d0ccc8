//! Static header entries of a specification: each `"Name: Value"` entry is
//! split at its first colon, the value trimmed, the name checked as a header
//! token and lowered.  A malformed entry — no colon, an empty or invalid
//! name, an invalid value — is silently skipped, never fatal.

use vstd::prelude::*;
use vstd::string::StrSliceExecFns;
use vstd::string::StringExecFns;

use crate::path::find_char;
use crate::path::find_char_str;
use crate::path::trim_str;
use crate::path::trimmed;
use crate::strutil::lemma_pairs_of_push;
use crate::strutil::pairs_of;
use crate::strutil::push_char;

verus! {

broadcast use vstd::seq::group_seq_axioms;

/// Whether a character may stand in a header name: the token characters of
/// the HTTP grammar — letters, digits, and `!#$%&'*+-.^_`|~`.
pub open spec fn is_token_char(c: char) -> bool {
    let u = c as u32;
    (97 <= u <= 122)  // a-z
     || (65 <= u <= 90)  // A-Z
     || (48 <= u <= 57)  // 0-9
     || u == 33  // !
     || (35 <= u <= 39)  // # $ % & '
     || u == 42 || u == 43  // * +
     || u == 45 || u == 46  // - .
     || (94 <= u <= 96)  // ^ _ `
     || u == 124 || u == 126  // | ~

}

/// Whether a character may stand in a header value: tab, or anything but the
/// control characters below space and delete.
pub open spec fn is_value_char(c: char) -> bool {
    c == '\t' || (32 <= c as u32 && c as u32 != 127)
}

/// An upper-case letter lowered; anything else unchanged.
pub open spec fn lower_char(c: char) -> char {
    if 65 <= c as u32 <= 90 {
        ((c as u32 + 32) as u8) as char
    } else {
        c
    }
}

/// The characters of `s` from `i` on, lowered.
pub open spec fn lower_from(s: Seq<char>, i: int) -> Seq<char>
    decreases s.len() - i,
{
    if i < 0 || i >= s.len() {
        Seq::empty()
    } else {
        seq![lower_char(s[i])] + lower_from(s, i + 1)
    }
}

/// Whether every character of `s` may stand in a header name.
pub open spec fn all_token_chars(s: Seq<char>) -> bool {
    forall|k: int| 0 <= k < s.len() ==> is_token_char(s[k])
}

/// Whether every character of `s` may stand in a header value.
pub open spec fn all_value_chars(s: Seq<char>) -> bool {
    forall|k: int| 0 <= k < s.len() ==> is_value_char(s[k])
}

/// How one entry reads as a header: split at the first colon, the value
/// trimmed, the name lowered; none when there is no colon, the name is empty
/// or not a token, or the value holds a forbidden character.
pub open spec fn spec_parse_header(e: Seq<char>) -> Option<(Seq<char>, Seq<char>)> {
    let c = find_char(e, ':', 0);
    if c == e.len() {
        None
    } else {
        let name = e.subrange(0, c);
        let value = trimmed(e.subrange(c + 1, e.len() as int));
        if name.len() > 0 && all_token_chars(name) && all_value_chars(value) {
            Some((lower_from(name, 0), value))
        } else {
            None
        }
    }
}

/// Whether a character may stand in a header name.
fn is_token_char_exec(c: char) -> (r: bool)
    ensures
        r == is_token_char(c),
{
    let u = c as u32;
    (97 <= u && u <= 122) || (65 <= u && u <= 90) || (48 <= u && u <= 57) || u == 33 || (35 <= u
        && u <= 39) || u == 42 || u == 43 || u == 45 || u == 46 || (94 <= u && u <= 96) || u == 124
        || u == 126
}

/// Whether a character may stand in a header value.
fn is_value_char_exec(c: char) -> (r: bool)
    ensures
        r == is_value_char(c),
{
    let u = c as u32;
    c == '\t' || (32 <= u && u != 127)
}

/// Reads one `"Name: Value"` entry: the lowered name and the trimmed value,
/// or none when the entry is malformed.
#[verifier::loop_isolation(false)]
pub fn parse_header_entry(entry: &str) -> (r: Option<(String, String)>)
    ensures
        (match r {
            Some(p) => spec_parse_header(entry@) == Some((p.0@, p.1@)),
            None => spec_parse_header(entry@) is None,
        }),
{
    let n = entry.unicode_len();
    let c = find_char_str(entry, ':');
    if c == n {
        return None;
    }
    let name_raw = entry.substring_char(0, c);
    let value_raw = entry.substring_char(c + 1, n);
    let value_trimmed = trim_str(value_raw);
    let name_len = name_raw.unicode_len();
    if name_len == 0 {
        return None;
    }
    let mut lowered = String::new();
    let mut i: usize = 0;
    proof {
        assert(lowered@ + lower_from(name_raw@, 0) =~= lower_from(name_raw@, 0));
    }
    while i < name_len
        invariant
            i <= name_len,
            name_len == name_raw@.len(),
            forall|k: int| 0 <= k < i ==> is_token_char(name_raw@[k]),
            lowered@ + lower_from(name_raw@, i as int) == lower_from(name_raw@, 0),
        decreases name_len - i,
    {
        let ch = name_raw.get_char(i);
        if !is_token_char_exec(ch) {
            return None;
        }
        let lc: char = if 65 <= ch as u32 && ch as u32 <= 90 {
            ((ch as u32 + 32) as u8) as char
        } else {
            ch
        };
        push_char(&mut lowered, lc);
        i = i + 1;
        proof {
            assert(lowered@ + lower_from(name_raw@, i as int) =~= lower_from(name_raw@, 0));
        }
    }
    let value_len = value_trimmed.unicode_len();
    let mut j: usize = 0;
    while j < value_len
        invariant
            j <= value_len,
            value_len == value_trimmed@.len(),
            forall|k: int| 0 <= k < j ==> is_value_char(value_trimmed@[k]),
        decreases value_len - j,
    {
        if !is_value_char_exec(value_trimmed.get_char(j)) {
            return None;
        }
        j = j + 1;
    }
    Some((lowered, String::from_str(value_trimmed)))
}

/// The headers of the entries from `i` on: each well-formed entry gives one,
/// the malformed are dropped.
pub open spec fn spec_parse_headers(entries: Seq<String>, i: int) -> Seq<(Seq<char>, Seq<char>)>
    decreases entries.len() - i,
{
    if i < 0 || i >= entries.len() {
        Seq::empty()
    } else {
        (match spec_parse_header(entries[i]@) {
            Some(p) => seq![p],
            None => Seq::empty(),
        }) + spec_parse_headers(entries, i + 1)
    }
}

/// Reads a header entry list: one header per well-formed entry, in order;
/// malformed entries are silently skipped.
#[verifier::loop_isolation(false)]
pub fn parse_header_entries(entries: &Vec<String>) -> (r: Vec<(String, String)>)
    ensures
        pairs_of(r@, 0) == spec_parse_headers(entries@, 0),
{
    let count = entries.len();
    let mut out: Vec<(String, String)> = Vec::new();
    proof {
        assert(pairs_of(out@, 0) + spec_parse_headers(entries@, 0) =~= spec_parse_headers(
            entries@,
            0,
        ));
    }
    let mut i: usize = 0;
    while i < count
        invariant
            i <= count,
            count == entries@.len(),
            pairs_of(out@, 0) + spec_parse_headers(entries@, i as int) == spec_parse_headers(
                entries@,
                0,
            ),
        decreases count - i,
    {
        match parse_header_entry(entries[i].as_str()) {
            Some(p) => {
                proof {
                    lemma_pairs_of_push(out@, p, 0);
                }
                out.push(p);
            },
            None => {},
        }
        i = i + 1;
        proof {
            assert(pairs_of(out@, 0) + spec_parse_headers(entries@, i as int)
                =~= spec_parse_headers(entries@, 0));
        }
    }
    out
}

/// Headers of the entries past `i` do not depend on the entries before `i`.
proof fn lemma_parse_headers_shift(entries: Seq<String>, i: int, k: int)
    requires
        0 <= i < entries.len(),
        i <= k <= entries.len() - 1,
    ensures
        spec_parse_headers(entries.remove(i), k) == spec_parse_headers(entries, k + 1),
    decreases entries.len() - k,
{
    if k < entries.len() - 1 {
        lemma_parse_headers_shift(entries, i, k + 1);
        assert(entries.remove(i)[k] == entries[k + 1]);
    } else {
        assert(spec_parse_headers(entries.remove(i), k) =~= Seq::empty());
    }
}

/// Law: a malformed entry — `"NoColonHere"`, an invalid name or value — is
/// ignored: the headers are exactly those of the list without it, so every
/// well-formed entry alongside it still applies.
pub proof fn lemma_malformed_entry_ignored(entries: Seq<String>, i: int)
    requires
        0 <= i < entries.len(),
        spec_parse_header(entries[i]@) is None,
    ensures
        spec_parse_headers(entries, 0) == spec_parse_headers(entries.remove(i), 0),
{
    lemma_malformed_entry_ignored_from(entries, i, 0);
}

/// The removal law, generalised to any starting position at or before `i`.
proof fn lemma_malformed_entry_ignored_from(entries: Seq<String>, i: int, j: int)
    requires
        0 <= j <= i < entries.len(),
        spec_parse_header(entries[i]@) is None,
    ensures
        spec_parse_headers(entries, j) == spec_parse_headers(entries.remove(i), j),
    decreases i - j,
{
    if j < i {
        lemma_malformed_entry_ignored_from(entries, i, j + 1);
        assert(entries.remove(i)[j] == entries[j]);
        assert(spec_parse_headers(entries, j) =~= spec_parse_headers(entries.remove(i), j));
    } else {
        if i < entries.len() - 1 {
            lemma_parse_headers_shift(entries, i, i);
        } else {
            assert(spec_parse_headers(entries, i + 1) =~= Seq::empty());
            assert(spec_parse_headers(entries.remove(i), i) =~= Seq::empty());
        }
        assert(spec_parse_headers(entries, i) =~= spec_parse_headers(entries.remove(i), i));
    }
}

} // verus!
