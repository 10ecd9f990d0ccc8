//! The path query language applied to a response body: a dot-separated chain
//! of segments, each a field name, a `name[index]` pair or a bare `[index]`.
//! Evaluation is null-safe: a missing field, a non-object, a non-array or an
//! out-of-range index yields null and evaluation carries on; it never fails.

use vstd::prelude::*;
use vstd::string::StrSliceExecFns;
use vstd::string::StringExecFns;

use crate::json::fields_of;
use crate::json::lemma_fields_of_index;
use crate::json::lemma_fields_of_len;
use crate::json::lemma_list_of_index;
use crate::json::lemma_list_of_len;
use crate::json::list_of;
use crate::json::JsonVal;
use crate::json::JsonValue;
use crate::strutil::push_char;

verus! {

broadcast use vstd::seq::group_seq_axioms, vstd::std_specs::vec::axiom_vec_index_decreases;

/// Mathematical model of one path segment.
pub enum SegVal {
    /// Access of a field by name.
    Field(Seq<char>),
    /// Access of a field (skipped when the name is empty) followed by an
    /// array index.
    Index(Seq<char>, int),
    /// A bracketed index that is not a non-negative integer: it yields null,
    /// never an error.
    InvalidIndex,
}

/// One parsed path segment: a plain field name, a field name (possibly
/// empty) with an array index, or a bracketed index that is not a
/// non-negative integer, which yields null.
#[derive(Debug, PartialEq, Eq)]
pub enum PathSegment {
    Field(String),
    Index(String, usize),
    InvalidIndex,
}

impl View for PathSegment {
    type V = SegVal;

    open spec fn view(&self) -> SegVal {
        match self {
            PathSegment::Field(name) => SegVal::Field(name@),
            PathSegment::Index(name, idx) => SegVal::Index(name@, *idx as int),
            PathSegment::InvalidIndex => SegVal::InvalidIndex,
        }
    }
}

/// Models of the segments from `i` on.
pub open spec fn segs_of(segs: Seq<PathSegment>, i: int) -> Seq<SegVal>
    decreases segs.len() - i,
{
    if i < 0 || i >= segs.len() {
        Seq::empty()
    } else {
        seq![segs[i]@] + segs_of(segs, i + 1)
    }
}

/// The segment models from `i` on are one for one with the segments.
pub proof fn lemma_segs_of_index(segs: Seq<PathSegment>, i: int, k: int)
    requires
        0 <= i <= k < segs.len(),
    ensures
        segs_of(segs, i).len() == segs.len() - i,
        segs_of(segs, i)[k - i] == segs[k]@,
    decreases segs.len() - i,
{
    lemma_segs_of_len(segs, i);
    if i < k {
        lemma_segs_of_index(segs, i + 1, k);
    }
}

/// From `i` on there are as many segment models as segments.
pub proof fn lemma_segs_of_len(segs: Seq<PathSegment>, i: int)
    requires
        0 <= i <= segs.len(),
    ensures
        segs_of(segs, i).len() == segs.len() - i,
    decreases segs.len() - i,
{
    if i < segs.len() {
        lemma_segs_of_len(segs, i + 1);
    }
}

/// Appending a segment appends its model.
pub proof fn lemma_segs_of_push(segs: Seq<PathSegment>, x: PathSegment, i: int)
    requires
        0 <= i <= segs.len(),
    ensures
        segs_of(segs.push(x), i) == segs_of(segs, i) + seq![x@],
    decreases segs.len() - i,
{
    if i < segs.len() {
        lemma_segs_of_push(segs, x, i + 1);
        assert(segs_of(segs.push(x), i) =~= segs_of(segs, i) + seq![x@]);
    } else {
        assert(segs.push(x)[i] == x);
        assert(segs_of(segs.push(x), i + 1) =~= Seq::empty());
        assert(segs_of(segs.push(x), i) =~= seq![x@]);
        assert(segs_of(segs, i) + seq![x@] =~= seq![x@]);
    }
}

/// The value of the first field called `name` from position `i` on; null when
/// there is none.
pub open spec fn lookup_field(
    fields: Seq<(Seq<char>, JsonVal)>,
    name: Seq<char>,
    i: int,
) -> JsonVal
    decreases fields.len() - i,
{
    if i < 0 || i >= fields.len() {
        JsonVal::Null
    } else if fields[i].0 == name {
        fields[i].1
    } else {
        lookup_field(fields, name, i + 1)
    }
}

/// Field access: on an object the named field's value (null when absent), on
/// anything else null.
pub open spec fn eval_field(v: JsonVal, name: Seq<char>) -> JsonVal {
    match v {
        JsonVal::Obj(fields) => lookup_field(fields, name, 0),
        _ => JsonVal::Null,
    }
}

/// Index access: on an array the element at `idx` (null when out of range),
/// on anything else null.
pub open spec fn eval_index(v: JsonVal, idx: int) -> JsonVal {
    match v {
        JsonVal::Arr(items) => if 0 <= idx < items.len() {
            items[idx]
        } else {
            JsonVal::Null
        },
        _ => JsonVal::Null,
    }
}

/// One segment applied to a value.
pub open spec fn eval_segment(v: JsonVal, seg: SegVal) -> JsonVal {
    match seg {
        SegVal::Field(name) => eval_field(v, name),
        SegVal::Index(name, idx) => eval_index(
            if name.len() > 0 {
                eval_field(v, name)
            } else {
                v
            },
            idx,
        ),
        SegVal::InvalidIndex => JsonVal::Null,
    }
}

/// The segments from `i` on applied to a value, left to right.
pub open spec fn eval_path(v: JsonVal, segs: Seq<SegVal>, i: int) -> JsonVal
    decreases segs.len() - i,
{
    if i < 0 || i >= segs.len() {
        v
    } else {
        eval_path(eval_segment(v, segs[i]), segs, i + 1)
    }
}

/// The whitespace stripped from the ends of a path or a header value before
/// parsing: the characters of Unicode's White_Space property, as
/// char::is_whitespace accepts them.
pub open spec fn is_space(c: char) -> bool {
    let u = c as u32;
    (9 <= u <= 13) || u == 32 || u == 133 || u == 160 || u == 0x1680 || (0x2000 <= u <= 0x200a)
        || u == 0x2028 || u == 0x2029 || u == 0x202f || u == 0x205f || u == 0x3000
}

/// `s` without leading whitespace.
pub open spec fn trim_start(s: Seq<char>) -> Seq<char>
    decreases s.len(),
{
    if s.len() > 0 && is_space(s[0]) {
        trim_start(s.drop_first())
    } else {
        s
    }
}

/// `s` without trailing whitespace.
pub open spec fn trim_end(s: Seq<char>) -> Seq<char>
    decreases s.len(),
{
    if s.len() > 0 && is_space(s.last()) {
        trim_end(s.drop_last())
    } else {
        s
    }
}

/// `s` without leading and trailing whitespace.
pub open spec fn trimmed(s: Seq<char>) -> Seq<char> {
    trim_end(trim_start(s))
}

/// The first position at or after `i` holding `c`, or the length of `s`.
pub open spec fn find_char(s: Seq<char>, c: char, i: int) -> int
    decreases s.len() - i,
{
    if i < 0 || i >= s.len() {
        s.len() as int
    } else if s[i] == c {
        i
    } else {
        find_char(s, c, i + 1)
    }
}

/// The value of the digits of `s` from `i` on, accumulated onto `acc`; none
/// on a non-digit or when the value leaves the machine's index range.
pub open spec fn digits_val(s: Seq<char>, i: int, acc: int) -> Option<int>
    decreases s.len() - i,
{
    if i < 0 || i >= s.len() {
        Some(acc)
    } else if 48 <= (s[i] as u32) <= 57 {
        let a2 = acc * 10 + ((s[i] as u32) - 48);
        if a2 > usize::MAX as int {
            None
        } else {
            digits_val(s, i + 1, a2)
        }
    } else {
        None
    }
}

/// A non-negative array index: digits after an optional plus sign, within the
/// machine's index range.
pub open spec fn parse_index(s: Seq<char>) -> Option<int> {
    let st: int = if s.len() > 0 && s[0] == '+' {
        1
    } else {
        0
    };
    if s.len() == st {
        None
    } else {
        digits_val(s, st, 0)
    }
}

/// How one part between dots reads as a segment: `name[index]` when a
/// bracketed index is present, closed and a non-negative integer (anything
/// after the closing bracket is ignored).  A closed bracket around anything
/// else is an invalid index, which yields null — never an error.  A part
/// without brackets, or whose bracket never closes, reads as a literal field
/// name.
pub open spec fn parse_segment(part: Seq<char>) -> SegVal {
    let b = find_char(part, '[', 0);
    if b == part.len() {
        SegVal::Field(part)
    } else {
        let rest = part.subrange(b + 1, part.len() as int);
        let c = find_char(rest, ']', 0);
        if c == rest.len() {
            SegVal::Field(part)
        } else {
            match parse_index(rest.subrange(0, c)) {
                Some(idx) => SegVal::Index(part.subrange(0, b), idx),
                None => SegVal::InvalidIndex,
            }
        }
    }
}

/// The segments of `s` from `i` on, split at dots, empty parts dropped;
/// `cur` holds the part read so far.
pub open spec fn split_segments(s: Seq<char>, i: int, cur: Seq<char>) -> Seq<SegVal>
    decreases s.len() - i,
{
    if i < 0 || i >= s.len() {
        if cur.len() == 0 {
            Seq::empty()
        } else {
            seq![parse_segment(cur)]
        }
    } else if s[i] == '.' {
        (if cur.len() == 0 {
            Seq::empty()
        } else {
            seq![parse_segment(cur)]
        }) + split_segments(s, i + 1, Seq::empty())
    } else {
        split_segments(s, i + 1, cur.push(s[i]))
    }
}

/// The segments of a whole path: whitespace trimmed, a lone dot is the root
/// (no segments), one leading dot is stripped, the rest is split at dots.
pub open spec fn path_segments(path: Seq<char>) -> Seq<SegVal> {
    let t = trimmed(path);
    if t == seq!['.'] {
        Seq::empty()
    } else {
        let u = if t.len() > 0 && t[0] == '.' {
            t.drop_first()
        } else {
            t
        };
        split_segments(u, 0, Seq::empty())
    }
}

/// Whether trimming strips this character.
fn is_space_char(c: char) -> (r: bool)
    ensures
        r == is_space(c),
{
    let u = c as u32;
    (9 <= u && u <= 13) || u == 32 || u == 133 || u == 160 || u == 0x1680 || (0x2000 <= u && u
        <= 0x200a) || u == 0x2028 || u == 0x2029 || u == 0x202f || u == 0x205f || u == 0x3000
}

/// Stripping leading whitespace leaves the suffix after the first non-space.
proof fn lemma_trim_start_at(s: Seq<char>, a: int)
    requires
        0 <= a <= s.len(),
        forall|k: int| 0 <= k < a ==> is_space(s[k]),
        a == s.len() || !is_space(s[a]),
    ensures
        trim_start(s) == s.subrange(a, s.len() as int),
    decreases a,
{
    if a == 0 {
        assert(s.subrange(0, s.len() as int) =~= s);
    } else {
        let d = s.drop_first();
        assert(forall|k: int| 0 <= k < a - 1 ==> is_space(#[trigger] d[k]));
        lemma_trim_start_at(d, a - 1);
        assert(d.subrange(a - 1, d.len() as int) =~= s.subrange(a, s.len() as int));
    }
}

/// Stripping trailing whitespace leaves the prefix up to the last non-space.
proof fn lemma_trim_end_at(s: Seq<char>, b: int)
    requires
        0 <= b <= s.len(),
        forall|k: int| b <= k < s.len() ==> is_space(s[k]),
        b == 0 || !is_space(s[b - 1]),
    ensures
        trim_end(s) == s.subrange(0, b),
    decreases s.len(),
{
    if b == s.len() {
        assert(s.subrange(0, b) =~= s);
    } else {
        let d = s.drop_last();
        assert(is_space(s.last()));
        assert(forall|k: int| b <= k < d.len() ==> is_space(#[trigger] d[k]));
        lemma_trim_end_at(d, b);
        assert(d.subrange(0, b) =~= s.subrange(0, b));
    }
}

/// The text with its surrounding whitespace (Unicode's White_Space
/// characters) removed.
pub(crate) fn trim_str<'a>(s: &'a str) -> (r: &'a str)
    ensures
        r@ == trimmed(s@),
{
    let n = s.unicode_len();
    let mut a: usize = 0;
    loop
        invariant
            a <= n,
            n == s@.len(),
            forall|k: int| 0 <= k < a ==> is_space(s@[k]),
        ensures
            a <= n,
            forall|k: int| 0 <= k < a ==> is_space(s@[k]),
            a == n || !is_space(s@[a as int]),
        decreases n - a,
    {
        if a >= n {
            break ;
        }
        if !is_space_char(s.get_char(a)) {
            break ;
        }
        a = a + 1;
    }
    proof {
        lemma_trim_start_at(s@, a as int);
    }
    if a == n {
        let r = s.substring_char(n, n);
        proof {
            assert(trim_start(s@) =~= Seq::<char>::empty());
            assert(trim_end(trim_start(s@)) =~= Seq::<char>::empty());
            assert(r@ =~= trimmed(s@));
        }
        return r;
    }
    let mut b: usize = n;
    loop
        invariant
            a < b <= n,
            n == s@.len(),
            !is_space(s@[a as int]),
            forall|k: int| b <= k < n ==> is_space(s@[k]),
        ensures
            a < b <= n,
            forall|k: int| b <= k < n ==> is_space(s@[k]),
            !is_space(s@[b - 1]),
        decreases b,
    {
        if !is_space_char(s.get_char(b - 1)) {
            break ;
        }
        proof {
            assert(b - 1 > a) by {
                if b - 1 == a {
                    assert(!is_space(s@[a as int]));
                }
            }
        }
        b = b - 1;
    }
    let r = s.substring_char(a, b);
    proof {
        let t = s@.subrange(a as int, n as int);
        assert(forall|k: int|
            b - a <= k < t.len() ==> is_space(#[trigger] t[k]) == is_space(s@[k + a]));
        lemma_trim_end_at(t, b - a);
        assert(t.subrange(0, b - a) =~= s@.subrange(a as int, b as int));
    }
    r
}

/// The position of the first occurrence of `c`, or the character length.
pub(crate) fn find_char_str(s: &str, c: char) -> (r: usize)
    ensures
        r as int == find_char(s@, c, 0),
        r <= s@.len(),
        r < s@.len() ==> s@[r as int] == c,
{
    let n = s.unicode_len();
    let mut i: usize = 0;
    loop
        invariant
            i <= n,
            n == s@.len(),
            forall|k: int| 0 <= k < i ==> s@[k] != c,
        ensures
            i <= n,
            forall|k: int| 0 <= k < i ==> s@[k] != c,
            i == n || s@[i as int] == c,
        decreases n - i,
    {
        if i >= n {
            break ;
        }
        if s.get_char(i) == c {
            break ;
        }
        i = i + 1;
    }
    proof {
        lemma_find_char_at(s@, c, 0, i as int);
    }
    i
}

/// Scanning from `i` with no occurrence before `j` finds `j`.
proof fn lemma_find_char_at(s: Seq<char>, c: char, i: int, j: int)
    requires
        0 <= i <= j <= s.len(),
        forall|k: int| i <= k < j ==> s[k] != c,
        j == s.len() || s[j] == c,
    ensures
        find_char(s, c, i) == if j < s.len() {
            j
        } else {
            s.len() as int
        },
    decreases j - i,
{
    if i < j {
        lemma_find_char_at(s, c, i + 1, j);
    }
}

/// Reads a bracketed index: digits after an optional plus sign, within the
/// machine's index range; anything else is refused.
fn parse_index_str(s: &str) -> (r: Option<usize>)
    ensures
        (match r {
            Some(u) => parse_index(s@) == Some(u as int),
            None => parse_index(s@) is None,
        }),
{
    let n = s.unicode_len();
    let st: usize = if n > 0 && s.get_char(0) == '+' {
        1
    } else {
        0
    };
    if n == st {
        return None;
    }
    let mut acc: usize = 0;
    let mut k: usize = st;
    while k < n
        invariant
            st <= k <= n,
            n == s@.len(),
            st as int == (if s@.len() > 0 && s@[0] == '+' {
                1int
            } else {
                0int
            }),
            st < n,
            digits_val(s@, k as int, acc as int) == digits_val(s@, st as int, 0),
        decreases n - k,
    {
        let c = s.get_char(k);
        let d = c as u32;
        if 48 <= d && d <= 57 {
            let dd = (d - 48) as usize;
            let a2_opt = match acc.checked_mul(10) {
                Some(m) => m.checked_add(dd),
                None => None,
            };
            match a2_opt {
                Some(a2) => {
                    acc = a2;
                },
                None => {
                    return None;
                },
            }
        } else {
            return None;
        }
        k = k + 1;
    }
    Some(acc)
}

/// Reads one part between dots as a segment: `name[index]` when a bracketed
/// index is present, closed and a non-negative integer (anything after the
/// closing bracket is ignored); a closed bracket around anything else is an
/// invalid index, which yields null; else the whole part as a field name.
fn parse_segment_str(part: &str) -> (seg: PathSegment)
    ensures
        seg@ == parse_segment(part@),
{
    let n = part.unicode_len();
    let b = find_char_str(part, '[');
    if b == n {
        return PathSegment::Field(String::from_str(part));
    }
    let rest = part.substring_char(b + 1, n);
    let rn = rest.unicode_len();
    let c = find_char_str(rest, ']');
    if c == rn {
        return PathSegment::Field(String::from_str(part));
    }
    let idx_str = rest.substring_char(0, c);
    match parse_index_str(idx_str) {
        Some(idx) => {
            let name = part.substring_char(0, b);
            PathSegment::Index(String::from_str(name), idx)
        },
        None => PathSegment::InvalidIndex,
    }
}

/// Parses a whole path: whitespace trimmed, a lone dot is the root (no
/// segments), one leading dot is stripped, the rest is split at dots with
/// empty parts dropped.
pub fn parse_json_path(path: &str) -> (segs: Vec<PathSegment>)
    ensures
        segs_of(segs@, 0) == path_segments(path@),
{
    let t = trim_str(path);
    let tn = t.unicode_len();
    if tn == 1 && t.get_char(0) == '.' {
        let segs: Vec<PathSegment> = Vec::new();
        proof {
            assert(t@ =~= seq!['.']);
            assert(segs_of(segs@, 0) =~= Seq::<SegVal>::empty());
        }
        return segs;
    }
    proof {
        assert(t@ != seq!['.']) by {
            if t@ =~= seq!['.'] {
                assert(t@.len() == 1 && t@[0] == '.');
            }
        }
    }
    let u = if tn > 0 && t.get_char(0) == '.' {
        let u0 = t.substring_char(1, tn);
        proof {
            assert(u0@ =~= t@.drop_first());
        }
        u0
    } else {
        t
    };
    let un = u.unicode_len();
    let mut segs: Vec<PathSegment> = Vec::new();
    let mut cur = String::new();
    let mut i: usize = 0;
    proof {
        assert(segs_of(segs@, 0) =~= Seq::<SegVal>::empty());
        assert(segs_of(segs@, 0) + split_segments(u@, 0, cur@) =~= split_segments(
            u@,
            0,
            Seq::empty(),
        ));
    }
    while i < un
        invariant
            i <= un,
            un == u@.len(),
            segs_of(segs@, 0) + split_segments(u@, i as int, cur@) == split_segments(
                u@,
                0,
                Seq::empty(),
            ),
        decreases un - i,
    {
        let ch = u.get_char(i);
        if ch == '.' {
            if !cur.as_str().is_empty() {
                let seg = parse_segment_str(cur.as_str());
                proof {
                    lemma_segs_of_push(segs@, seg, 0);
                }
                segs.push(seg);
            }
            cur = String::new();
        } else {
            let ghost cur_prev = cur@;
            push_char(&mut cur, ch);
            proof {
                assert(cur@ =~= cur_prev.push(ch));
            }
        }
        i = i + 1;
        proof {
            assert(segs_of(segs@, 0) + split_segments(u@, i as int, cur@) =~= split_segments(
                u@,
                0,
                Seq::empty(),
            ));
        }
    }
    if !cur.as_str().is_empty() {
        let seg = parse_segment_str(cur.as_str());
        proof {
            lemma_segs_of_push(segs@, seg, 0);
        }
        segs.push(seg);
    }
    proof {
        assert(segs_of(segs@, 0) =~= path_segments(path@));
    }
    segs
}

/// Field access on a value: the named field of an object (null when absent),
/// null on anything else.
fn get_field(v: JsonValue, name: &String) -> (r: JsonValue)
    ensures
        r@ == eval_field(v@, name@),
{
    match v {
        JsonValue::Obj(mut fields) => {
            let ghost m = fields_of(fields@, 0);
            proof {
                lemma_fields_of_len(fields@, 0);
                assert(v@ == JsonVal::Obj(m));
            }
            let n = fields.len();
            let mut j: usize = 0;
            while j < n
                invariant
                    j <= n,
                    n == fields@.len(),
                    m == fields_of(fields@, 0),
                    m.len() == n,
                    v@ == JsonVal::Obj(m),
                    lookup_field(m, name@, j as int) == lookup_field(m, name@, 0),
                decreases n - j,
            {
                proof {
                    lemma_fields_of_index(fields@, 0, j as int);
                }
                if fields[j].0 == *name {
                    let pair = fields.swap_remove(j);
                    proof {
                        assert(lookup_field(m, name@, j as int) == m[j as int].1);
                    }
                    return pair.1;
                }
                j = j + 1;
            }
            JsonValue::Null
        },
        _ => JsonValue::Null,
    }
}

/// Index access on a value: the element of an array (null when out of range),
/// null on anything else.
fn get_index(v: JsonValue, idx: usize) -> (r: JsonValue)
    ensures
        r@ == eval_index(v@, idx as int),
{
    match v {
        JsonValue::Arr(mut items) => {
            proof {
                lemma_list_of_len(items@, 0);
            }
            if idx < items.len() {
                proof {
                    lemma_list_of_index(items@, 0, idx as int);
                }
                items.swap_remove(idx)
            } else {
                JsonValue::Null
            }
        },
        _ => JsonValue::Null,
    }
}

/// Applies one parsed segment to a value.
fn apply_segment(v: JsonValue, seg: &PathSegment) -> (r: JsonValue)
    ensures
        r@ == eval_segment(v@, seg@),
{
    match seg {
        PathSegment::Field(name) => get_field(v, name),
        PathSegment::Index(name, idx) => {
            let base = if !name.as_str().is_empty() {
                get_field(v, name)
            } else {
                v
            };
            get_index(base, *idx)
        },
        PathSegment::InvalidIndex => JsonValue::Null,
    }
}

/// Applies the parsed segments to a value, left to right.
pub fn apply_path(v: JsonValue, segs: &Vec<PathSegment>) -> (r: JsonValue)
    ensures
        r@ == eval_path(v@, segs_of(segs@, 0), 0),
{
    let ghost v0 = v@;
    let ghost m = segs_of(segs@, 0);
    proof {
        lemma_segs_of_len(segs@, 0);
    }
    let n = segs.len();
    let mut w = v;
    let mut j: usize = 0;
    while j < n
        invariant
            j <= n,
            n == segs@.len(),
            m == segs_of(segs@, 0),
            m.len() == n,
            eval_path(w@, m, j as int) == eval_path(v0, m, 0),
        decreases n - j,
    {
        proof {
            lemma_segs_of_index(segs@, 0, j as int);
        }
        w = apply_segment(w, &segs[j]);
        j = j + 1;
    }
    w
}

/// Applies one raw path part (the text between two dots) to a value.
pub fn process_json_path_part(json: JsonValue, part: &str) -> (r: JsonValue)
    ensures
        r@ == eval_segment(json@, parse_segment(part@)),
{
    let seg = parse_segment_str(part);
    apply_segment(json, &seg)
}

/// Applies a whole path query to a value: never an error, absent paths give
/// null.
pub fn extract_json_path(json: JsonValue, path: &str) -> (r: JsonValue)
    ensures
        r@ == eval_path(json@, path_segments(path@), 0),
{
    let segs = parse_json_path(path);
    apply_path(json, &segs)
}

/// Whether some field of an object bears this name.
pub open spec fn has_field(fields: Seq<(Seq<char>, JsonVal)>, name: Seq<char>) -> bool {
    exists|k: int| 0 <= k < fields.len() && fields[k].0 == name
}

/// Looking a name up among fields none of which bears it yields null.
proof fn lemma_lookup_absent(fields: Seq<(Seq<char>, JsonVal)>, name: Seq<char>, i: int)
    requires
        !has_field(fields, name),
        i >= 0,
    ensures
        lookup_field(fields, name, i) == JsonVal::Null,
    decreases fields.len() - i,
{
    if i < fields.len() {
        assert(fields[i].0 != name);
        lemma_lookup_absent(fields, name, i + 1);
    }
}

/// Law: the root path `.` returns any value unchanged.
pub proof fn lemma_root_path_identity(v: JsonVal)
    ensures
        eval_path(v, path_segments(seq!['.']), 0) == v,
{
    assert(trim_start(seq!['.']) =~= seq!['.']);
    assert(trim_end(seq!['.']) =~= seq!['.']);
    assert(path_segments(seq!['.']) =~= Seq::<SegVal>::empty());
}

/// Law: null propagates — from null, any remaining path yields null, never an
/// error.
pub proof fn lemma_eval_null(segs: Seq<SegVal>, i: int)
    ensures
        eval_path(JsonVal::Null, segs, i) == JsonVal::Null,
    decreases segs.len() - i,
{
    if 0 <= i < segs.len() {
        assert(eval_segment(JsonVal::Null, segs[i]) == JsonVal::Null);
        lemma_eval_null(segs, i + 1);
    }
}

/// Law: a field access for a name the value does not hold yields null, and the
/// rest of the path keeps it null — a missing field at any depth gives null,
/// never an error.
pub proof fn lemma_absent_field_null(v: JsonVal, segs: Seq<SegVal>, i: int, name: Seq<char>)
    requires
        0 <= i < segs.len(),
        segs[i] == SegVal::Field(name),
        !(v is Obj) || !has_field(v->Obj_0, name),
    ensures
        eval_path(v, segs, i) == JsonVal::Null,
{
    if v is Obj {
        lemma_lookup_absent(v->Obj_0, name, 0);
    }
    assert(eval_segment(v, segs[i]) == JsonVal::Null);
    lemma_eval_null(segs, i + 1);
}

/// Law: an index segment whose base is not an array, or whose index is out of
/// range, yields null, and the rest of the path keeps it null.
pub proof fn lemma_index_out_of_range_null(
    v: JsonVal,
    segs: Seq<SegVal>,
    i: int,
    name: Seq<char>,
    idx: int,
)
    requires
        0 <= i < segs.len(),
        segs[i] == SegVal::Index(name, idx),
        ({
            let base = if name.len() > 0 {
                eval_field(v, name)
            } else {
                v
            };
            !(base is Arr) || !(0 <= idx < base->Arr_0.len())
        }),
    ensures
        eval_path(v, segs, i) == JsonVal::Null,
{
    assert(eval_segment(v, segs[i]) == JsonVal::Null);
    lemma_eval_null(segs, i + 1);
}

/// Law: a segment whose bracketed index is not a non-negative integer yields
/// null on any value, and the rest of the path keeps it null — never an
/// error.
pub proof fn lemma_invalid_index_null(v: JsonVal, segs: Seq<SegVal>, i: int)
    requires
        0 <= i < segs.len(),
        segs[i] is InvalidIndex,
    ensures
        eval_path(v, segs, i) == JsonVal::Null,
{
    assert(eval_segment(v, segs[i]) == JsonVal::Null);
    lemma_eval_null(segs, i + 1);
}

} // verus!
