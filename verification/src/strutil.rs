//! Small string helpers shared across the library: appending a character and
//! the view of a list of string pairs.

use vstd::prelude::*;
use vstd::string::StrSliceExecFns;

verus! {

/// Appends one character to a string.
///
/// Relies on String::push: appends the character to the end of the string.
#[verifier::external_body]
pub(crate) fn push_char(out: &mut String, c: char)
    ensures
        final(out)@ == old(out)@ + seq![c],
{
    out.push(c);
}

/// Views of the string pairs from `i` on.
pub open spec fn pairs_of(ps: Seq<(String, String)>, i: int) -> Seq<(Seq<char>, Seq<char>)>
    decreases ps.len() - i,
{
    if i < 0 || i >= ps.len() {
        Seq::empty()
    } else {
        seq![(ps[i].0@, ps[i].1@)] + pairs_of(ps, i + 1)
    }
}

/// The pair views from `i` on are one for one with the pairs.
pub proof fn lemma_pairs_of_index(ps: Seq<(String, String)>, i: int, k: int)
    requires
        0 <= i <= k < ps.len(),
    ensures
        pairs_of(ps, i).len() == ps.len() - i,
        pairs_of(ps, i)[k - i] == (ps[k].0@, ps[k].1@),
    decreases ps.len() - i,
{
    lemma_pairs_of_len(ps, i);
    if i < k {
        lemma_pairs_of_index(ps, i + 1, k);
    }
}

/// From `i` on there are as many pair views as pairs.
pub proof fn lemma_pairs_of_len(ps: Seq<(String, String)>, i: int)
    requires
        0 <= i <= ps.len(),
    ensures
        pairs_of(ps, i).len() == ps.len() - i,
    decreases ps.len() - i,
{
    if i < ps.len() {
        lemma_pairs_of_len(ps, i + 1);
    }
}

/// Appending a pair appends its view.
pub proof fn lemma_pairs_of_push(ps: Seq<(String, String)>, x: (String, String), i: int)
    requires
        0 <= i <= ps.len(),
    ensures
        pairs_of(ps.push(x), i) == pairs_of(ps, i) + seq![(x.0@, x.1@)],
    decreases ps.len() - i,
{
    if i < ps.len() {
        lemma_pairs_of_push(ps, x, i + 1);
        assert(pairs_of(ps.push(x), i) =~= pairs_of(ps, i) + seq![(x.0@, x.1@)]);
    } else {
        assert(ps.push(x)[i] == x);
        assert(pairs_of(ps.push(x), i + 1) =~= Seq::empty());
        assert(pairs_of(ps.push(x), i) =~= seq![(x.0@, x.1@)]);
        assert(pairs_of(ps, i) + seq![(x.0@, x.1@)] =~= seq![(x.0@, x.1@)]);
    }
}

/// Views of the strings from `i` on.
pub open spec fn strs_of(ss: Seq<String>, i: int) -> Seq<Seq<char>>
    decreases ss.len() - i,
{
    if i < 0 || i >= ss.len() {
        Seq::empty()
    } else {
        seq![ss[i]@] + strs_of(ss, i + 1)
    }
}

/// Appending a string appends its view.
pub proof fn lemma_strs_of_push(ss: Seq<String>, x: String, i: int)
    requires
        0 <= i <= ss.len(),
    ensures
        strs_of(ss.push(x), i) == strs_of(ss, i) + seq![x@],
    decreases ss.len() - i,
{
    if i < ss.len() {
        lemma_strs_of_push(ss, x, i + 1);
        assert(strs_of(ss.push(x), i) =~= strs_of(ss, i) + seq![x@]);
    } else {
        assert(ss.push(x)[i] == x);
        assert(strs_of(ss.push(x), i + 1) =~= Seq::empty());
        assert(strs_of(ss.push(x), i) =~= seq![x@]);
        assert(strs_of(ss, i) + seq![x@] =~= seq![x@]);
    }
}

/// Whether two texts hold the same characters.
pub fn str_eq(a: &str, b: &str) -> (r: bool)
    ensures
        r == (a@ == b@),
{
    let n = a.unicode_len();
    if n != b.unicode_len() {
        return false;
    }
    let mut i: usize = 0;
    while i < n
        invariant
            i <= n,
            n == a@.len(),
            n == b@.len(),
            forall|k: int| 0 <= k < i ==> a@[k] == b@[k],
        decreases n - i,
    {
        if a.get_char(i) != b.get_char(i) {
            return false;
        }
        i = i + 1;
    }
    proof {
        assert(a@ =~= b@);
    }
    true
}

} // verus!
