//! Unicode-aware text measurement, padding and truncation.
//!
//! Display width is modelled per character: the width of a text is the sum of
//! the widths of its characters.  The width of one character comes from the
//! `unicode_width` crate through a single trusted wrapper; printable ASCII is
//! pinned to one column so that padding and ellipses can be reasoned about.

use vstd::prelude::*;

verus! {

/// Display width of one character according to `unicode_width`'s table,
/// `None` for a control character.
pub uninterp spec fn char_width_table(c: char) -> Option<usize>;

/// Display width of one character: one column for printable ASCII, the
/// `unicode_width` table value otherwise, counting control characters as zero.
pub open spec fn char_width(c: char) -> nat {
    if 0x20 <= c as int && (c as int) < 0x7f {
        1
    } else {
        match char_width_table(c) {
            Some(w) => w as nat,
            None => 0,
        }
    }
}

/// Display width of a text: the sum of its characters' widths.
pub open spec fn text_width(s: Seq<char>) -> nat
    decreases s.len(),
{
    if s.len() == 0 {
        0
    } else {
        char_width(s[0]) + text_width(s.drop_first())
    }
}

/// Relies on unicode_width's UnicodeWidthChar::width: the display width of a
/// character in columns, None for a control character.  Its table gives every
/// printable ASCII character one column and no character more than three.
#[verifier::external_body]
fn measure_char(c: char) -> (r: Option<usize>)
    ensures
        r == char_width_table(c),
        0x20 <= c as int && (c as int) < 0x7f ==> r == Some(1usize),
        r matches Some(w) ==> w <= 3,
{
    unicode_width::UnicodeWidthChar::width(c)
}

/// Display width of one character as executable code.
pub fn char_display_width(c: char) -> (w: usize)
    ensures
        w as nat == char_width(c),
        w <= 3,
{
    match measure_char(c) {
        Some(w) => w,
        None => 0,
    }
}

/// The characters of a string, in order.
pub fn to_chars(s: &str) -> (v: Vec<char>)
    ensures
        v@ == s@,
{
    let n = s.unicode_len();
    let mut v: Vec<char> = Vec::new();
    for i in 0..n
        invariant
            n == s@.len(),
            v@ =~= s@.take(i as int),
    {
        v.push(s.get_char(i));
        assert(v@ =~= s@.take(i + 1));
    }
    assert(v@ =~= s@);
    v
}

/// Relies on std's FromIterator for String: collecting characters yields the
/// string with exactly those characters in order.
#[verifier::external_body]
pub(crate) fn chars_to_string(v: &Vec<char>) -> (s: String)
    ensures
        s@ == v@,
{
    v.iter().collect()
}

/// A run of `n` spaces.
pub open spec fn spec_spaces(n: nat) -> Seq<char> {
    Seq::new(n, |i: int| ' ')
}

/// A single character is as wide as that character.
pub proof fn lemma_text_width_singleton(c: char)
    ensures
        text_width(seq![c]) == char_width(c),
{
    let s = seq![c];
    assert(s.len() == 1);
    assert(s[0] == c);
    assert(s.drop_first() =~= Seq::<char>::empty());
    assert(text_width(s.drop_first()) == 0);
    assert(text_width(s) == char_width(s[0]) + text_width(s.drop_first()));
}

/// The ellipsis is three columns wide.
pub proof fn lemma_text_width_ellipsis()
    ensures
        text_width(seq!['.', '.', '.']) == 3,
{
    let e3 = seq!['.', '.', '.'];
    let e2 = seq!['.', '.'];
    let e1 = seq!['.'];
    lemma_text_width_singleton('.');
    assert(e2.drop_first() =~= e1);
    assert(text_width(e2) == char_width(e2[0]) + text_width(e2.drop_first()));
    assert(e3.drop_first() =~= e2);
    assert(text_width(e3) == char_width(e3[0]) + text_width(e3.drop_first()));
}

/// Width adds up over concatenation.
pub proof fn lemma_text_width_concat(a: Seq<char>, b: Seq<char>)
    ensures
        text_width(a + b) == text_width(a) + text_width(b),
    decreases a.len(),
{
    if a.len() == 0 {
        assert(a + b =~= b);
    } else {
        assert((a + b).drop_first() =~= a.drop_first() + b);
        lemma_text_width_concat(a.drop_first(), b);
    }
}

/// A run of spaces is as wide as it is long.
pub proof fn lemma_text_width_spaces(n: nat)
    ensures
        text_width(spec_spaces(n)) == n,
    decreases n,
{
    if n > 0 {
        assert(spec_spaces(n).drop_first() =~= spec_spaces((n - 1) as nat));
        lemma_text_width_spaces((n - 1) as nat);
    }
}

/// Spaces, executable.
pub fn make_spaces(n: usize) -> (v: Vec<char>)
    ensures
        v@ =~= spec_spaces(n as nat),
{
    let mut v: Vec<char> = Vec::new();
    for i in 0..n
        invariant
            v@ =~= spec_spaces(i as nat),
    {
        v.push(' ');
        assert(v@ =~= spec_spaces((i + 1) as nat));
    }
    v
}

/// Whether the text fits in `bound` columns, and its exact width when it does.
pub fn measure_upto(v: &Vec<char>, bound: usize) -> (r: (bool, usize))
    ensures
        r.0 == (text_width(v@) <= bound as nat),
        r.0 ==> r.1 as nat == text_width(v@),
{
    let mut acc: u128 = 0;
    let n = v.len();
    for i in 0..n
        invariant
            n == v@.len(),
            acc == text_width(v@.take(i as int)),
            acc <= 3 * i,
    {
        proof {
            assert(v@.take(i + 1).drop_last() =~= v@.take(i as int));
            lemma_text_width_concat(v@.take(i as int), seq![v@[i as int]]);
            assert(v@.take(i as int) + seq![v@[i as int]] =~= v@.take(i + 1));
            assert(text_width(seq![v@[i as int]].drop_first()) == 0);
        }
        let w = char_display_width(v[i]);
        acc = acc + w as u128;
    }
    assert(v@.take(n as int) =~= v@);
    if acc <= bound as u128 {
        (true, acc as usize)
    } else {
        (false, 0)
    }
}

/// The width of the text, saturated at `cap`.
pub fn width_capped(v: &Vec<char>, cap: usize) -> (w: usize)
    ensures
        w as nat == vstd::math::min(text_width(v@) as int, cap as int),
{
    let (fits, w) = measure_upto(v, cap);
    if fits {
        w
    } else {
        cap
    }
}

/// The longest prefix that fits in `avail` columns, stopping at the first
/// character that does not fit.
pub open spec fn take_width(s: Seq<char>, avail: nat) -> Seq<char>
    decreases s.len(),
{
    if s.len() == 0 {
        s
    } else if char_width(s[0]) <= avail {
        seq![s[0]] + take_width(s.drop_first(), (avail - char_width(s[0])) as nat)
    } else {
        Seq::<char>::empty()
    }
}

/// The truncated prefix never gets wider than the space it was given.
pub proof fn lemma_take_width_bound(s: Seq<char>, avail: nat)
    ensures
        text_width(take_width(s, avail)) <= avail,
    decreases s.len(),
{
    if s.len() > 0 && char_width(s[0]) <= avail {
        let rest = take_width(s.drop_first(), (avail - char_width(s[0])) as nat);
        lemma_take_width_bound(s.drop_first(), (avail - char_width(s[0])) as nat);
        lemma_text_width_concat(seq![s[0]], rest);
        assert(text_width(seq![s[0]].drop_first()) == 0);
    }
}

/// Text padded with spaces to `width` columns; text wider than that is
/// truncated with a trailing ellipsis, keeping the width exact.
pub open spec fn spec_format_text_with_width(t: Seq<char>, width: nat) -> Seq<char> {
    if text_width(t) <= width {
        t + spec_spaces((width - text_width(t)) as nat)
    } else {
        let avail = if width >= 3 {
            (width - 3) as nat
        } else {
            0
        };
        let r0 = take_width(t, avail) + seq!['.', '.', '.'];
        if text_width(r0) < width {
            r0 + spec_spaces((width - text_width(r0)) as nat)
        } else {
            r0
        }
    }
}

/// Pad or truncate `text` to exactly `width` display columns, reserving three
/// columns for an ellipsis when truncating.
pub fn format_text_with_width(text: &str, width: usize) -> (r: String)
    ensures
        r@ == spec_format_text_with_width(text@, width as nat),
{
    let v = to_chars(text);
    let out = format_chars_with_width(&v, width);
    let r = chars_to_string(&out);
    r
}

/// `format_text_with_width` on a character vector.
pub fn format_chars_with_width(v: &Vec<char>, width: usize) -> (out: Vec<char>)
    ensures
        out@ =~= spec_format_text_with_width(v@, width as nat),
{
    let (fits, dw) = measure_upto(v, width);
    if fits {
        let mut out = v.clone();
        let mut pad = make_spaces(width - dw);
        out.append(&mut pad);
        assert(out@ =~= v@ + spec_spaces((width - dw) as nat));
        out
    } else {
        let avail: usize = if width >= 3 {
            width - 3
        } else {
            0
        };
        let mut out: Vec<char> = Vec::new();
        let mut current: usize = 0;
        let n = v.len();
        let mut i: usize = 0;
        proof {
            assert(v@.skip(0) =~= v@);
            assert(out@ + take_width(v@, avail as nat) =~= take_width(v@, avail as nat));
        }
        while i < n
            invariant
                n == v@.len(),
                i <= n,
                avail <= usize::MAX - 3,
                current <= avail,
                current as nat == text_width(out@),
                take_width(v@, avail as nat) =~= out@ + take_width(
                    v@.skip(i as int),
                    (avail - current) as nat,
                ),
            ensures
                current <= avail,
                current as nat == text_width(out@),
                out@ =~= take_width(v@, avail as nat),
            decreases n - i,
        {
            let cw = char_display_width(v[i]);
            if current + cw <= avail {
                proof {
                    let rest = v@.skip(i as int);
                    assert(rest[0] == v@[i as int]);
                    assert(rest.drop_first() =~= v@.skip(i + 1));
                    lemma_text_width_concat(out@, seq![v@[i as int]]);
                    lemma_text_width_singleton(v@[i as int]);
                    assert((out@ + seq![v@[i as int]]) + take_width(
                        v@.skip(i + 1),
                        (avail - (current + cw)) as nat,
                    ) =~= out@ + (seq![rest[0]] + take_width(
                        rest.drop_first(),
                        ((avail - current) - char_width(rest[0])) as nat,
                    )));
                }
                let ghost pre = out@;
                out.push(v[i]);
                proof {
                    assert(out@ =~= pre + seq![v@[i as int]]);
                }
                current = current + cw;
                i = i + 1;
            } else {
                proof {
                    let rest = v@.skip(i as int);
                    assert(rest[0] == v@[i as int]);
                    assert(take_width(rest, (avail - current) as nat) =~= Seq::<char>::empty());
                    assert(out@ + take_width(rest, (avail - current) as nat) =~= out@);
                }
                break;
            }
        }
        proof {
            if i == n {
                // at a normal exit every character was taken
            }
            assert(v@.skip(n as int) =~= Seq::<char>::empty());
        }
        // `out` is now exactly the truncated prefix.
        let ghost pre = out@;
        out.push('.');
        out.push('.');
        out.push('.');
        proof {
            assert(out@ =~= pre + seq!['.', '.', '.']);
            lemma_text_width_concat(pre, seq!['.', '.', '.']);
            lemma_text_width_ellipsis();
        }
        let result_width = current + 3;
        if result_width < width {
            let mut pad = make_spaces(width - result_width);
            let ghost r0 = out@;
            out.append(&mut pad);
            assert(out@ =~= r0 + spec_spaces((width - result_width) as nat));
        }
        out
    }
}

/// Pad to `width` columns without ever truncating (used for header labels).
pub open spec fn spec_pad_to_width(t: Seq<char>, width: nat) -> Seq<char> {
    if text_width(t) <= width {
        t + spec_spaces((width - text_width(t)) as nat)
    } else {
        t
    }
}

/// Pad `text` with trailing spaces up to `width` columns; longer text is
/// returned unchanged.
pub fn pad_to_width(text: &str, width: usize) -> (r: String)
    ensures
        r@ == spec_pad_to_width(text@, width as nat),
{
    let v = to_chars(text);
    let (fits, dw) = measure_upto(&v, width);
    if fits {
        let mut out = v.clone();
        let mut pad = make_spaces(width - dw);
        out.append(&mut pad);
        assert(out@ =~= v@ + spec_spaces((width - dw) as nat));
        chars_to_string(&out)
    } else {
        let r = chars_to_string(&v);
        r
    }
}

/// A formatted cell is always exactly as wide as its column, provided the
/// column leaves room for the ellipsis.
pub proof fn lemma_format_text_width_exact(t: Seq<char>, width: nat)
    requires
        width >= 3 || text_width(t) <= width,
    ensures
        text_width(spec_format_text_with_width(t, width)) == width,
{
    if text_width(t) <= width {
        lemma_text_width_concat(t, spec_spaces((width - text_width(t)) as nat));
        lemma_text_width_spaces((width - text_width(t)) as nat);
    } else {
        let avail = (width - 3) as nat;
        let p = take_width(t, avail);
        lemma_take_width_bound(t, avail);
        lemma_text_width_concat(p, seq!['.', '.', '.']);
        lemma_text_width_ellipsis();
        let r0 = p + seq!['.', '.', '.'];
        if text_width(r0) < width {
            lemma_text_width_concat(r0, spec_spaces((width - text_width(r0)) as nat));
            lemma_text_width_spaces((width - text_width(r0)) as nat);
        }
    }
}

} // verus!
