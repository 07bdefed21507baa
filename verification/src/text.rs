//! Character-level helpers for reasoning about query fragments.

use vstd::prelude::*;
use vstd::string::StrSliceExecFns;

verus! {

/// How many times `c` occurs in `s`.
pub open spec fn count_char(s: Seq<char>, c: char) -> nat
    decreases s.len(),
{
    if s.len() == 0 {
        0
    } else {
        count_char(s.drop_last(), c) + if s.last() == c {
            1nat
        } else {
            0nat
        }
    }
}

/// A sequence without `c` counts zero.
pub proof fn lemma_count_char_absent(s: Seq<char>, c: char)
    requires
        forall|i: int| 0 <= i < s.len() ==> s[i] != c,
    ensures
        count_char(s, c) == 0,
    decreases s.len(),
{
    if s.len() > 0 {
        lemma_count_char_absent(s.drop_last(), c);
    }
}

/// Counting a character distributes over concatenation.
pub proof fn lemma_count_char_concat(a: Seq<char>, b: Seq<char>, c: char)
    ensures
        count_char(a + b, c) == count_char(a, c) + count_char(b, c),
    decreases b.len(),
{
    if b.len() == 0 {
        assert(a + b =~= a);
    } else {
        lemma_count_char_concat(a, b.drop_last(), c);
        assert((a + b).drop_last() =~= a + b.drop_last());
        assert((a + b).last() == b.last());
    }
}

/// Whether two pieces of text hold the same characters.
#[verifier::loop_isolation(false)]
pub fn str_eq(a: &str, b: &str) -> (r: bool)
    ensures
        r == (a@ == b@),
{
    let n = a.unicode_len();
    if n != b.unicode_len() {
        proof {
            assert(a@ != b@);
        }
        return false;
    }
    for i in 0..n
        invariant
            n == a@.len() && n == b@.len(),
            forall|j: int| 0 <= j < i ==> a@[j] == b@[j],
    {
        if a.get_char(i) != b.get_char(i) {
            return false;
        }
    }
    proof {
        assert(a@ =~= b@);
    }
    true
}

/// Lexicographic order on text, comparing character codes from position `i`.
pub open spec fn lex_lt_from(a: Seq<char>, b: Seq<char>, i: nat) -> bool
    decreases b.len() - i,
{
    if i >= b.len() {
        false
    } else if i >= a.len() {
        true
    } else if a[i as int] != b[i as int] {
        a[i as int] < b[i as int]
    } else {
        lex_lt_from(a, b, i + 1)
    }
}

/// Strict lexicographic order on text, by character code.
pub open spec fn lex_lt(a: Seq<char>, b: Seq<char>) -> bool {
    lex_lt_from(a, b, 0)
}

/// Whether `a` sorts strictly before `b`, comparing character codes.
#[verifier::loop_isolation(false)]
pub fn str_lt(a: &str, b: &str) -> (r: bool)
    ensures
        r == lex_lt(a@, b@),
{
    let an = a.unicode_len();
    let bn = b.unicode_len();
    let mut i: usize = 0;
    loop
        invariant
            an == a@.len(),
            bn == b@.len(),
            i <= an,
            i <= bn,
            lex_lt_from(a@, b@, 0) == lex_lt_from(a@, b@, i as nat),
        decreases an - i,
    {
        if i >= bn {
            return false;
        }
        if i >= an {
            return true;
        }
        let ca = a.get_char(i);
        let cb = b.get_char(i);
        if ca != cb {
            return ca < cb;
        }
        i = i + 1;
    }
}

/// SQL `LIKE` semantics on plain text: `%` matches any run of characters,
/// `_` any single character, every other pattern character itself.
pub open spec fn like_matches(p: Seq<char>, t: Seq<char>) -> bool
    decreases p.len() + t.len(),
{
    if p.len() == 0 {
        t.len() == 0
    } else if p[0] == '%' {
        like_matches(p.drop_first(), t) || (t.len() > 0 && like_matches(p, t.drop_first()))
    } else if t.len() == 0 {
        false
    } else {
        (p[0] == '_' || p[0] == t[0]) && like_matches(p.drop_first(), t.drop_first())
    }
}

/// Whether pattern `p` matches text `t` under [`like_matches`].
pub fn like_match(p: &str, t: &str) -> (r: bool)
    ensures
        r == like_matches(p@, t@),
{
    let r = like_from(p, t, 0, 0);
    proof {
        assert(p@.skip(0) =~= p@);
        assert(t@.skip(0) =~= t@);
    }
    r
}

/// The matcher behind `like_match`, over the suffixes starting at `i` and `j`.
fn like_from(p: &str, t: &str, i: usize, j: usize) -> (r: bool)
    requires
        i <= p@.len(),
        j <= t@.len(),
    ensures
        r == like_matches(p@.skip(i as int), t@.skip(j as int)),
    decreases p@.len() - i + t@.len() - j,
{
    let pn = p.unicode_len();
    let tn = t.unicode_len();
    let ghost ps = p@.skip(i as int);
    let ghost ts = t@.skip(j as int);
    if i == pn {
        proof {
            assert(ps.len() == 0);
        }
        return j == tn;
    }
    let pc = p.get_char(i);
    proof {
        assert(ps[0] == p@[i as int]);
        assert(ps.drop_first() =~= p@.skip(i + 1));
        assert(ts.len() > 0 ==> ts.drop_first() =~= t@.skip(j + 1));
    }
    if pc == '%' {
        if like_from(p, t, i + 1, j) {
            true
        } else if j < tn {
            like_from(p, t, i, j + 1)
        } else {
            false
        }
    } else if j == tn {
        proof {
            assert(ts.len() == 0);
        }
        false
    } else {
        let tc = t.get_char(j);
        proof {
            assert(ts[0] == t@[j as int]);
        }
        if pc == '_' || pc == tc {
            like_from(p, t, i + 1, j + 1)
        } else {
            false
        }
    }
}

/// Counts how often `c` occurs in `s`.
#[verifier::loop_isolation(false)]
pub fn count_char_in(s: &str, c: char) -> (r: usize)
    ensures
        r == count_char(s@, c),
{
    let n = s.unicode_len();
    let mut r: usize = 0;
    for i in 0..n
        invariant
            n == s@.len(),
            r == count_char(s@.subrange(0, i as int), c),
            r <= i,
    {
        proof {
            assert(s@.subrange(0, i + 1).drop_last() =~= s@.subrange(0, i as int));
            assert(s@.subrange(0, i + 1).last() == s@[i as int]);
        }
        if s.get_char(i) == c {
            r = r + 1;
        }
    }
    proof {
        assert(s@.subrange(0, n as int) =~= s@);
    }
    r
}

} // verus!
