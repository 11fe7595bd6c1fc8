//! String utilities: case folding and whitespace behind trusted wrappers,
//! and verified equality, prefix, substring and trimming operations on
//! character sequences.

use vstd::prelude::*;
use crate::text::to_chars;

verus! {

/// The Unicode lowercase of a text, as `str::to_lowercase` computes it.
pub uninterp spec fn lower_of(s: Seq<char>) -> Seq<char>;

/// The Unicode uppercase of a text, as `str::to_uppercase` computes it.
pub uninterp spec fn upper_of(s: Seq<char>) -> Seq<char>;

/// Whether a character counts as whitespace, as `char::is_whitespace` has it.
pub uninterp spec fn is_space_char(c: char) -> bool;

/// Relies on str::to_lowercase: the result depends on the characters alone.
#[verifier::external_body]
pub(crate) fn lower_chars(s: &str) -> (r: Vec<char>)
    ensures
        r@ == lower_of(s@),
{
    s.to_lowercase().chars().collect()
}

/// Relies on str::to_uppercase: the result depends on the characters alone.
#[verifier::external_body]
pub(crate) fn upper_chars(s: &str) -> (r: Vec<char>)
    ensures
        r@ == upper_of(s@),
{
    s.to_uppercase().chars().collect()
}

/// Relies on char::is_whitespace: the Unicode White_Space property of the
/// character alone; a plain space has it.
#[verifier::external_body]
pub(crate) fn char_is_space(c: char) -> (r: bool)
    ensures
        r == is_space_char(c),
        c == ' ' ==> r,
{
    c.is_whitespace()
}

/// Character-for-character equality of two vectors.
pub fn chars_eq(a: &Vec<char>, b: &Vec<char>) -> (r: bool)
    ensures
        r == (a@ == b@),
{
    if a.len() != b.len() {
        return false;
    }
    let n = a.len();
    for i in 0..n
        invariant
            n == a@.len() && n == b@.len(),
            forall|j: int| 0 <= j < i ==> a@[j] == b@[j],
    {
        if a[i] != b[i] {
            return false;
        }
    }
    proof {
        assert(a@ =~= b@);
    }
    true
}

/// Equality of a character vector against a string literal.
pub fn chars_eq_str(a: &Vec<char>, s: &str) -> (r: bool)
    ensures
        r == (a@ == s@),
{
    let b = to_chars(s);
    chars_eq(a, &b)
}

/// Whether `p` is a prefix of `s`.
pub open spec fn is_prefix_of(p: Seq<char>, s: Seq<char>) -> bool {
    p.len() <= s.len() && s.subrange(0, p.len() as int) == p
}

/// Whether the text starts with the given literal.
pub fn starts_with_lit(v: &Vec<char>, p: &str) -> (r: bool)
    ensures
        r == is_prefix_of(p@, v@),
{
    let pc = to_chars(p);
    if pc.len() > v.len() {
        proof {
            assert(!is_prefix_of(p@, v@));
        }
        return false;
    }
    let n = pc.len();
    for i in 0..n
        invariant
            n == pc@.len(),
            n <= v@.len(),
            pc@ == p@,
            forall|j: int| 0 <= j < i ==> v@[j] == pc@[j],
    {
        if v[i] != pc[i] {
            proof {
                assert(v@.subrange(0, n as int)[i as int] != p@[i as int]);
            }
            return false;
        }
    }
    proof {
        assert(v@.subrange(0, n as int) =~= pc@);
    }
    true
}

/// The text after a prefix, when the prefix is there.
pub fn strip_prefix_lit(v: &Vec<char>, p: &str) -> (r: Option<Vec<char>>)
    ensures
        match r {
            Some(rest) => is_prefix_of(p@, v@) && rest@ == v@.skip(p@.len() as int),
            None => !is_prefix_of(p@, v@),
        },
{
    if !starts_with_lit(v, p) {
        return None;
    }
    let pc = to_chars(p);
    let mut rest: Vec<char> = Vec::new();
    let n = v.len();
    let mut i: usize = pc.len();
    proof {
        assert(rest@ =~= v@.subrange(p@.len() as int, p@.len() as int));
    }
    while i < n
        invariant
            n == v@.len(),
            pc@ == p@,
            pc@.len() <= i <= n,
            rest@ =~= v@.subrange(pc@.len() as int, i as int),
        decreases n - i,
    {
        rest.push(v[i]);
        proof {
            assert(rest@ =~= v@.subrange(pc@.len() as int, i + 1));
        }
        i = i + 1;
    }
    proof {
        assert(v@.subrange(pc@.len() as int, n as int) =~= v@.skip(p@.len() as int));
    }
    Some(rest)
}

/// Whether `needle` occurs contiguously inside `hay`.
pub open spec fn contains_seq(hay: Seq<char>, needle: Seq<char>) -> bool {
    exists|i: int|
        0 <= i && i + needle.len() <= hay.len() && #[trigger] hay.subrange(
            i,
            i + needle.len() as int,
        ) == needle
}

/// Whether the needle occurs at position `start` of the text.
fn range_matches(v: &Vec<char>, start: usize, nd: &Vec<char>) -> (r: bool)
    requires
        start + nd@.len() <= v@.len(),
    ensures
        r == (v@.subrange(start as int, start + nd@.len() as int) == nd@),
{
    let m = nd.len();
    let hay_len = v.len();
    for j in 0..m
        invariant
            m == nd@.len(),
            hay_len == v@.len(),
            start + m <= hay_len,
            forall|k: int| 0 <= k < j ==> v@[start + k] == nd@[k],
    {
        if v[start + j] != nd[j] {
            proof {
                let sub = v@.subrange(start as int, start + m as int);
                assert(sub[j as int] != nd@[j as int]);
            }
            return false;
        }
    }
    proof {
        assert(v@.subrange(start as int, start + m as int) =~= nd@);
    }
    true
}

/// Substring search against a literal needle.
pub fn contains_lit(v: &Vec<char>, needle: &str) -> (r: bool)
    ensures
        r == contains_seq(v@, needle@),
{
    let nd = to_chars(needle);
    let m = nd.len();
    if m == 0 {
        proof {
            assert(v@.subrange(0, 0 + needle@.len() as int) =~= needle@);
            assert(contains_seq(v@, needle@));
        }
        return true;
    }
    if m > v.len() {
        proof {
            assert(!contains_seq(v@, needle@));
        }
        return false;
    }
    let last = v.len() - m;
    let mut start: usize = 0;
    while start <= last
        invariant
            nd@ == needle@,
            m == nd@.len(),
            m <= v@.len(),
            1 <= m,
            v@.len() <= usize::MAX,
            last == v@.len() - m,
            start <= last + 1,
            forall|i: int|
                0 <= i < start ==> #[trigger] v@.subrange(i, i + m as int) != needle@,
        decreases last - start + 1,
    {
        if range_matches(v, start, &nd) {
            return true;
        }
        start = start + 1;
    }
    proof {
        assert forall|i: int| 0 <= i && i + needle@.len() <= v@.len() implies #[trigger] v@
            .subrange(i, i + needle@.len() as int) != needle@ by {
            assert(i < start);
        }
    }
    false
}

/// Whether the text is free of the terminal escape character.
pub open spec fn esc_free(s: Seq<char>) -> bool {
    forall|i: int| 0 <= i < s.len() ==> #[trigger] s[i] != '\u{1b}'
}

/// Every text occurs in itself.
pub proof fn lemma_contains_self(s: Seq<char>)
    ensures
        contains_seq(s, s),
{
    assert(s.subrange(0, 0 + s.len() as int) =~= s);
}

/// Whether trimming in the given mode strips this character: whitespace
/// normally, the double-quote character in quote mode.
pub open spec fn strips(quotes: bool, c: char) -> bool {
    if quotes {
        c == '"'
    } else {
        is_space_char(c)
    }
}

/// The text with leading and trailing stripped characters removed.
pub open spec fn spec_trim_by(s: Seq<char>, quotes: bool) -> Seq<char>
    decreases s.len(),
{
    if s.len() > 0 && strips(quotes, s.first()) {
        spec_trim_by(s.drop_first(), quotes)
    } else if s.len() > 0 && strips(quotes, s.last()) {
        spec_trim_by(s.drop_last(), quotes)
    } else {
        s
    }
}

/// Strip leading and trailing characters matching the mode.
fn trim_by(v: &Vec<char>, quotes: bool) -> (r: Vec<char>)
    ensures
        r@ == spec_trim_by(v@, quotes),
{
    let n = v.len();
    let mut lo: usize = 0;
    proof {
        assert(v@.skip(0) =~= v@);
    }
    loop
        invariant
            n == v@.len(),
            lo <= n,
            spec_trim_by(v@, quotes) == spec_trim_by(v@.skip(lo as int), quotes),
        ensures
            lo <= n,
            lo < n ==> !strips(quotes, v@[lo as int]),
            spec_trim_by(v@, quotes) == spec_trim_by(v@.skip(lo as int), quotes),
        decreases n - lo,
    {
        if lo >= n {
            break;
        }
        let c = v[lo];
        let strip = if quotes {
            c == '"'
        } else {
            char_is_space(c)
        };
        if !strip {
            break;
        }
        proof {
            let s = v@.skip(lo as int);
            assert(s.first() == v@[lo as int]);
            assert(strips(quotes, s.first()));
            assert(s.drop_first() =~= v@.skip(lo + 1));
        }
        lo = lo + 1;
    }
    let mut hi: usize = n;
    loop
        invariant
            n == v@.len(),
            lo <= hi <= n,
            lo < n ==> !strips(quotes, v@[lo as int]),
            spec_trim_by(v@, quotes) == spec_trim_by(v@.subrange(lo as int, hi as int), quotes),
        ensures
            lo <= hi <= n,
            lo < n ==> !strips(quotes, v@[lo as int]),
            hi > lo ==> !strips(quotes, v@[hi - 1]),
            spec_trim_by(v@, quotes) == spec_trim_by(v@.subrange(lo as int, hi as int), quotes),
        decreases hi,
    {
        if hi <= lo {
            break;
        }
        let c = v[hi - 1];
        let strip = if quotes {
            c == '"'
        } else {
            char_is_space(c)
        };
        if !strip {
            break;
        }
        proof {
            let s = v@.subrange(lo as int, hi as int);
            assert(s.last() == v@[hi - 1]);
            assert(s.first() == v@[lo as int]);
            assert(!strips(quotes, s.first()));
            assert(strips(quotes, s.last()));
            assert(s.drop_last() =~= v@.subrange(lo as int, hi - 1));
        }
        hi = hi - 1;
    }
    proof {
        let s = v@.subrange(lo as int, hi as int);
        if s.len() > 0 {
            assert(s.first() == v@[lo as int]);
            assert(!strips(quotes, s.first()));
            assert(s.last() == v@[hi - 1]);
            assert(!strips(quotes, s.last()));
        }
        assert(spec_trim_by(s, quotes) == s);
    }
    let mut r: Vec<char> = Vec::new();
    let mut i: usize = lo;
    proof {
        assert(r@ =~= v@.subrange(lo as int, lo as int));
    }
    while i < hi
        invariant
            hi <= v@.len(),
            lo <= i <= hi,
            r@ =~= v@.subrange(lo as int, i as int),
        decreases hi - i,
    {
        r.push(v[i]);
        proof {
            assert(r@ =~= v@.subrange(lo as int, i + 1));
        }
        i = i + 1;
    }
    r
}

/// Whitespace-trimmed copy of the text.
pub fn trim_chars(v: &Vec<char>) -> (r: Vec<char>)
    ensures
        r@ == spec_trim_by(v@, false),
{
    trim_by(v, false)
}

/// Quote-trimmed copy of the text.
pub fn trim_quotes(v: &Vec<char>) -> (r: Vec<char>)
    ensures
        r@ == spec_trim_by(v@, true),
{
    trim_by(v, true)
}

} // verus!
