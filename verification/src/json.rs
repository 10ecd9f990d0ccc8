//! The structured value a response body parses into: the library's own JSON
//! model, and its rendering to compact or pretty (two-space indented) text.
//! Numbers are carried as their rendered token so that no information is lost
//! and no floating point enters the library.

use vstd::prelude::*;
use vstd::string::StrSliceExecFns;
use vstd::string::StringExecFns;

use crate::strutil::push_char;

verus! {

broadcast use vstd::seq::group_seq_axioms, vstd::std_specs::vec::axiom_vec_index_decreases;

/// Mathematical model of a JSON value.
pub enum JsonVal {
    Null,
    Bool(bool),
    Num(Seq<char>),
    Str(Seq<char>),
    Arr(Seq<JsonVal>),
    Obj(Seq<(Seq<char>, JsonVal)>),
}

/// A structured (JSON) value: null, boolean, number, string, array or object.
/// Object fields keep the order the parser produced; a number holds its
/// rendered token.
#[derive(Debug, PartialEq, Eq)]
pub enum JsonValue {
    Null,
    Bool(bool),
    Num(String),
    Str(String),
    Arr(Vec<JsonValue>),
    Obj(Vec<(String, JsonValue)>),
}

/// The model of an executable value: structure kept, strings and vectors
/// replaced by their mathematical views.
pub open spec fn val_of(v: JsonValue) -> JsonVal
    decreases v, 0int,
{
    match v {
        JsonValue::Null => JsonVal::Null,
        JsonValue::Bool(b) => JsonVal::Bool(b),
        JsonValue::Num(t) => JsonVal::Num(t@),
        JsonValue::Str(s) => JsonVal::Str(s@),
        JsonValue::Arr(items) => JsonVal::Arr(list_of(items@, 0)),
        JsonValue::Obj(fields) => JsonVal::Obj(fields_of(fields@, 0)),
    }
}

/// Models of the array elements from `i` on.
pub open spec fn list_of(items: Seq<JsonValue>, i: int) -> Seq<JsonVal>
    decreases items, items.len() - i,
{
    if i < 0 || i >= items.len() {
        Seq::empty()
    } else {
        seq![val_of(items[i])] + list_of(items, i + 1)
    }
}

/// Models of the object fields from `i` on.
pub open spec fn fields_of(fields: Seq<(String, JsonValue)>, i: int) -> Seq<(Seq<char>, JsonVal)>
    decreases fields, fields.len() - i,
{
    if i < 0 || i >= fields.len() {
        Seq::empty()
    } else {
        seq![(fields[i].0@, val_of(fields[i].1))] + fields_of(fields, i + 1)
    }
}

impl View for JsonValue {
    type V = JsonVal;

    open spec fn view(&self) -> JsonVal {
        val_of(*self)
    }
}

/// The element models from `i` on are one for one with the elements.
pub proof fn lemma_list_of_index(items: Seq<JsonValue>, i: int, k: int)
    requires
        0 <= i <= k < items.len(),
    ensures
        list_of(items, i).len() == items.len() - i,
        list_of(items, i)[k - i] == val_of(items[k]),
    decreases items.len() - i,
{
    lemma_list_of_len(items, i);
    if i < k {
        lemma_list_of_index(items, i + 1, k);
    }
}

/// From `i` on there are as many element models as elements.
pub proof fn lemma_list_of_len(items: Seq<JsonValue>, i: int)
    requires
        0 <= i <= items.len(),
    ensures
        list_of(items, i).len() == items.len() - i,
    decreases items.len() - i,
{
    if i < items.len() {
        lemma_list_of_len(items, i + 1);
    }
}

/// The field models from `i` on are one for one with the fields.
pub proof fn lemma_fields_of_index(fields: Seq<(String, JsonValue)>, i: int, k: int)
    requires
        0 <= i <= k < fields.len(),
    ensures
        fields_of(fields, i).len() == fields.len() - i,
        fields_of(fields, i)[k - i] == (fields[k].0@, val_of(fields[k].1)),
    decreases fields.len() - i,
{
    lemma_fields_of_len(fields, i);
    if i < k {
        lemma_fields_of_index(fields, i + 1, k);
    }
}

/// From `i` on there are as many field models as fields.
pub proof fn lemma_fields_of_len(fields: Seq<(String, JsonValue)>, i: int)
    requires
        0 <= i <= fields.len(),
    ensures
        fields_of(fields, i).len() == fields.len() - i,
    decreases fields.len() - i,
{
    if i < fields.len() {
        lemma_fields_of_len(fields, i + 1);
    }
}

/// Lower-case hexadecimal digit for a value below 16.
pub open spec fn hex_digit(n: u32) -> char {
    if n < 10 {
        ((48 + n) as u8) as char
    } else {
        ((87 + n) as u8) as char
    }
}

/// How one character appears inside a rendered JSON string: quote, backslash
/// and control characters are escaped, everything else stands as itself.
pub open spec fn esc_char(c: char) -> Seq<char> {
    if c == '"' {
        seq!['\\', '"']
    } else if c == '\\' {
        seq!['\\', '\\']
    } else if c == '\u{8}' {
        seq!['\\', 'b']
    } else if c == '\t' {
        seq!['\\', 't']
    } else if c == '\n' {
        seq!['\\', 'n']
    } else if c == '\u{c}' {
        seq!['\\', 'f']
    } else if c == '\r' {
        seq!['\\', 'r']
    } else if (c as u32) < 32 {
        seq!['\\', 'u', '0', '0', hex_digit((c as u32) / 16), hex_digit((c as u32) % 16)]
    } else {
        seq![c]
    }
}

/// Escaped form of the characters of `s` from position `i` on.
pub open spec fn esc_from(s: Seq<char>, i: int) -> Seq<char>
    decreases s.len() - i,
{
    if i < 0 || i >= s.len() {
        Seq::empty()
    } else {
        esc_char(s[i]) + esc_from(s, i + 1)
    }
}

/// A rendered JSON string: the escaped characters between double quotes.
pub open spec fn quoted(s: Seq<char>) -> Seq<char> {
    seq!['"'] + esc_from(s, 0) + seq!['"']
}

/// Compact (single-line, no whitespace) rendering of a value.
pub open spec fn fmt_compact(v: JsonVal) -> Seq<char>
    decreases v, 0int,
{
    match v {
        JsonVal::Null => "null"@,
        JsonVal::Bool(b) => if b {
            "true"@
        } else {
            "false"@
        },
        JsonVal::Num(t) => t,
        JsonVal::Str(s) => quoted(s),
        JsonVal::Arr(items) => seq!['['] + fmt_compact_arr(items, 0) + seq![']'],
        JsonVal::Obj(fields) => seq!['{'] + fmt_compact_obj(fields, 0) + seq!['}'],
    }
}

/// Comma-separated compact rendering of the array elements from `i` on.
pub open spec fn fmt_compact_arr(items: Seq<JsonVal>, i: int) -> Seq<char>
    decreases items, items.len() - i,
{
    if i < 0 || i >= items.len() {
        Seq::empty()
    } else {
        let sep: Seq<char> = if i > 0 {
            seq![',']
        } else {
            Seq::empty()
        };
        sep + fmt_compact(items[i]) + fmt_compact_arr(items, i + 1)
    }
}

/// Comma-separated compact rendering of the object fields from `i` on.
pub open spec fn fmt_compact_obj(fields: Seq<(Seq<char>, JsonVal)>, i: int) -> Seq<char>
    decreases fields, fields.len() - i,
{
    if i < 0 || i >= fields.len() {
        Seq::empty()
    } else {
        let sep: Seq<char> = if i > 0 {
            seq![',']
        } else {
            Seq::empty()
        };
        sep + quoted(fields[i].0) + seq![':'] + fmt_compact(fields[i].1) + fmt_compact_obj(
            fields,
            i + 1,
        )
    }
}

/// Pretty (two-space indented) rendering of a value standing at indentation
/// `ind`.
pub open spec fn fmt_pretty(v: JsonVal, ind: Seq<char>) -> Seq<char>
    decreases v, 0int,
{
    match v {
        JsonVal::Null => "null"@,
        JsonVal::Bool(b) => if b {
            "true"@
        } else {
            "false"@
        },
        JsonVal::Num(t) => t,
        JsonVal::Str(s) => quoted(s),
        JsonVal::Arr(items) => if items.len() == 0 {
            seq!['[', ']']
        } else {
            seq!['['] + fmt_pretty_arr(items, 0, ind + seq![' ', ' ']) + seq!['\n'] + ind
                + seq![']']
        },
        JsonVal::Obj(fields) => if fields.len() == 0 {
            seq!['{', '}']
        } else {
            seq!['{'] + fmt_pretty_obj(fields, 0, ind + seq![' ', ' ']) + seq!['\n'] + ind
                + seq!['}']
        },
    }
}

/// Pretty rendering of the array elements from `i` on, each on its own line
/// at indentation `ind`.
pub open spec fn fmt_pretty_arr(items: Seq<JsonVal>, i: int, ind: Seq<char>) -> Seq<char>
    decreases items, items.len() - i,
{
    if i < 0 || i >= items.len() {
        Seq::empty()
    } else {
        let sep: Seq<char> = if i > 0 {
            seq![',']
        } else {
            Seq::empty()
        };
        sep + seq!['\n'] + ind + fmt_pretty(items[i], ind) + fmt_pretty_arr(items, i + 1, ind)
    }
}

/// Pretty rendering of the object fields from `i` on, each on its own line
/// at indentation `ind`.
pub open spec fn fmt_pretty_obj(fields: Seq<(Seq<char>, JsonVal)>, i: int, ind: Seq<char>) -> Seq<
    char,
>
    decreases fields, fields.len() - i,
{
    if i < 0 || i >= fields.len() {
        Seq::empty()
    } else {
        let sep: Seq<char> = if i > 0 {
            seq![',']
        } else {
            Seq::empty()
        };
        sep + seq!['\n'] + ind + quoted(fields[i].0) + seq![':', ' '] + fmt_pretty(
            fields[i].1,
            ind,
        ) + fmt_pretty_obj(fields, i + 1, ind)
    }
}

/// Appends the escaped form of `s` to `out`.
fn append_escaped(s: &str, out: &mut String)
    ensures
        final(out)@ == old(out)@ + esc_from(s@, 0),
{
    let n = s.unicode_len();
    let mut i: usize = 0;
    while i < n
        invariant
            n == s@.len(),
            i <= n,
            out@ + esc_from(s@, i as int) == old(out)@ + esc_from(s@, 0),
        decreases n - i,
    {
        let c = s.get_char(i);
        let code = c as u32;
        if c == '"' {
            out.append("\\\"");
            proof {
                reveal_strlit("\\\"");
                assert("\\\""@ =~= seq!['\\', '"']);
            }
        } else if c == '\\' {
            out.append("\\\\");
            proof {
                reveal_strlit("\\\\");
                assert("\\\\"@ =~= seq!['\\', '\\']);
            }
        } else if c == '\u{8}' {
            out.append("\\b");
            proof {
                reveal_strlit("\\b");
                assert("\\b"@ =~= seq!['\\', 'b']);
            }
        } else if c == '\t' {
            out.append("\\t");
            proof {
                reveal_strlit("\\t");
                assert("\\t"@ =~= seq!['\\', 't']);
            }
        } else if c == '\n' {
            out.append("\\n");
            proof {
                reveal_strlit("\\n");
                assert("\\n"@ =~= seq!['\\', 'n']);
            }
        } else if c == '\u{c}' {
            out.append("\\f");
            proof {
                reveal_strlit("\\f");
                assert("\\f"@ =~= seq!['\\', 'f']);
            }
        } else if c == '\r' {
            out.append("\\r");
            proof {
                reveal_strlit("\\r");
                assert("\\r"@ =~= seq!['\\', 'r']);
            }
        } else if code < 32 {
            out.append("\\u00");
            proof {
                reveal_strlit("\\u00");
                assert("\\u00"@ =~= seq!['\\', 'u', '0', '0']);
            }
            let hi = code / 16;
            let lo = code % 16;
            let hc: char = if hi < 10 {
                ((48 + hi) as u8) as char
            } else {
                ((87 + hi) as u8) as char
            };
            let lc: char = if lo < 10 {
                ((48 + lo) as u8) as char
            } else {
                ((87 + lo) as u8) as char
            };
            push_char(out, hc);
            push_char(out, lc);
        } else {
            push_char(out, c);
        }
        proof {
            assert(esc_from(s@, i as int) == esc_char(s@[i as int]) + esc_from(s@, i + 1));
            assert(out@ + esc_from(s@, i + 1) =~= old(out)@ + esc_from(s@, 0));
        }
        i = i + 1;
    }
}

/// Appends the quoted, escaped form of the string `s` to `out`.
fn append_quoted(s: &str, out: &mut String)
    ensures
        final(out)@ == old(out)@ + quoted(s@),
{
    push_char(out, '"');
    append_escaped(s, out);
    push_char(out, '"');
    proof {
        assert(out@ =~= old(out)@ + quoted(s@));
    }
}

/// Appends the compact rendering of `v` to `out`.
#[verifier::loop_isolation(false)]
fn render_compact_into(v: &JsonValue, out: &mut String)
    ensures
        final(out)@ == old(out)@ + fmt_compact(v@),
    decreases v,
{
    match v {
        JsonValue::Null => {
            out.append("null");
        },
        JsonValue::Bool(b) => {
            if *b {
                out.append("true");
            } else {
                out.append("false");
            }
        },
        JsonValue::Num(t) => {
            out.append(t.as_str());
        },
        JsonValue::Str(s) => {
            append_quoted(s.as_str(), out);
        },
        JsonValue::Arr(items) => {
            let ghost m = list_of(items@, 0);
            push_char(out, '[');
            let n = items.len();
            let mut j: usize = 0;
            while j < n
                invariant
                    n == items@.len(),
                    j <= n,
                    m == list_of(items@, 0),
                    out@ + fmt_compact_arr(m, j as int) == old(out)@ + seq!['['] + fmt_compact_arr(
                        m,
                        0,
                    ),
                decreases n - j,
            {
                if j > 0 {
                    push_char(out, ',');
                }
                render_compact_into(&items[j], out);
                proof {
                    lemma_list_of_index(items@, 0, j as int);
                    assert(out@ + fmt_compact_arr(m, j + 1) =~= old(out)@ + seq!['[']
                        + fmt_compact_arr(m, 0));
                }
                j = j + 1;
            }
            push_char(out, ']');
            proof {
                lemma_list_of_len(items@, 0);
                assert(out@ =~= old(out)@ + fmt_compact(v@));
            }
        },
        JsonValue::Obj(fields) => {
            let ghost m = fields_of(fields@, 0);
            push_char(out, '{');
            let n = fields.len();
            let mut j: usize = 0;
            while j < n
                invariant
                    n == fields@.len(),
                    j <= n,
                    m == fields_of(fields@, 0),
                    out@ + fmt_compact_obj(m, j as int) == old(out)@ + seq!['{'] + fmt_compact_obj(
                        m,
                        0,
                    ),
                decreases n - j,
            {
                if j > 0 {
                    push_char(out, ',');
                }
                append_quoted(fields[j].0.as_str(), out);
                push_char(out, ':');
                render_compact_into(&fields[j].1, out);
                proof {
                    lemma_fields_of_index(fields@, 0, j as int);
                    assert(out@ + fmt_compact_obj(m, j + 1) =~= old(out)@ + seq!['{']
                        + fmt_compact_obj(m, 0));
                }
                j = j + 1;
            }
            push_char(out, '}');
            proof {
                lemma_fields_of_len(fields@, 0);
                assert(out@ =~= old(out)@ + fmt_compact(v@));
            }
        },
    }
}

/// Appends the pretty rendering of `v`, standing at indentation `ind`, to
/// `out`.
#[verifier::loop_isolation(false)]
#[verifier::rlimit(60)]
fn render_pretty_into(v: &JsonValue, ind: &str, out: &mut String)
    ensures
        final(out)@ == old(out)@ + fmt_pretty(v@, ind@),
    decreases v,
{
    match v {
        JsonValue::Null => {
            out.append("null");
        },
        JsonValue::Bool(b) => {
            if *b {
                out.append("true");
            } else {
                out.append("false");
            }
        },
        JsonValue::Num(t) => {
            out.append(t.as_str());
        },
        JsonValue::Str(s) => {
            append_quoted(s.as_str(), out);
        },
        JsonValue::Arr(items) => {
            let ghost m = list_of(items@, 0);
            proof {
                lemma_list_of_len(items@, 0);
            }
            let n = items.len();
            if n == 0 {
                push_char(out, '[');
                push_char(out, ']');
                proof {
                    assert(out@ =~= old(out)@ + fmt_pretty(v@, ind@));
                }
                return ;
            }
            let mut child_ind = String::from_str(ind);
            child_ind.append("  ");
            proof {
                reveal_strlit("  ");
                assert(child_ind@ =~= ind@ + seq![' ', ' ']);
            }
            let ghost ci = child_ind@;
            push_char(out, '[');
            let mut j: usize = 0;
            while j < n
                invariant
                    n == items@.len(),
                    j <= n,
                    m == list_of(items@, 0),
                    ci == child_ind@,
                    ci == ind@ + seq![' ', ' '],
                    out@ + fmt_pretty_arr(m, j as int, ci) == old(out)@ + seq!['[']
                        + fmt_pretty_arr(m, 0, ci),
                decreases n - j,
            {
                if j > 0 {
                    push_char(out, ',');
                }
                push_char(out, '\n');
                out.append(child_ind.as_str());
                render_pretty_into(&items[j], child_ind.as_str(), out);
                proof {
                    lemma_list_of_index(items@, 0, j as int);
                    assert(out@ + fmt_pretty_arr(m, j + 1, ci) =~= old(out)@ + seq!['[']
                        + fmt_pretty_arr(m, 0, ci));
                }
                j = j + 1;
            }
            push_char(out, '\n');
            out.append(ind);
            push_char(out, ']');
            proof {
                assert(out@ =~= old(out)@ + fmt_pretty(v@, ind@));
            }
        },
        JsonValue::Obj(fields) => {
            let ghost m = fields_of(fields@, 0);
            proof {
                lemma_fields_of_len(fields@, 0);
            }
            let n = fields.len();
            if n == 0 {
                push_char(out, '{');
                push_char(out, '}');
                proof {
                    assert(out@ =~= old(out)@ + fmt_pretty(v@, ind@));
                }
                return ;
            }
            let mut child_ind = String::from_str(ind);
            child_ind.append("  ");
            proof {
                reveal_strlit("  ");
                assert(child_ind@ =~= ind@ + seq![' ', ' ']);
            }
            let ghost ci = child_ind@;
            push_char(out, '{');
            let mut j: usize = 0;
            while j < n
                invariant
                    n == fields@.len(),
                    j <= n,
                    m == fields_of(fields@, 0),
                    ci == child_ind@,
                    ci == ind@ + seq![' ', ' '],
                    out@ + fmt_pretty_obj(m, j as int, ci) == old(out)@ + seq!['{']
                        + fmt_pretty_obj(m, 0, ci),
                decreases n - j,
            {
                if j > 0 {
                    push_char(out, ',');
                }
                push_char(out, '\n');
                out.append(child_ind.as_str());
                append_quoted(fields[j].0.as_str(), out);
                push_char(out, ':');
                push_char(out, ' ');
                render_pretty_into(&fields[j].1, child_ind.as_str(), out);
                proof {
                    lemma_fields_of_index(fields@, 0, j as int);
                    assert(out@ + fmt_pretty_obj(m, j + 1, ci) =~= old(out)@ + seq!['{']
                        + fmt_pretty_obj(m, 0, ci));
                }
                j = j + 1;
            }
            push_char(out, '\n');
            out.append(ind);
            push_char(out, '}');
            proof {
                assert(out@ =~= old(out)@ + fmt_pretty(v@, ind@));
            }
        },
    }
}

/// Renders a value as text: pretty (two-space indented) when `pretty` is set,
/// else compact on one line.
pub fn render(v: &JsonValue, pretty: bool) -> (r: String)
    ensures
        pretty ==> r@ == fmt_pretty(v@, Seq::empty()),
        !pretty ==> r@ == fmt_compact(v@),
{
    let mut out = String::new();
    if pretty {
        let empty = String::new();
        render_pretty_into(v, empty.as_str(), &mut out);
    } else {
        render_compact_into(v, &mut out);
    }
    proof {
        assert(out@ =~= if pretty {
            fmt_pretty(v@, Seq::empty())
        } else {
            fmt_compact(v@)
        });
    }
    out
}

} // verus!
