//! Three-way lexicographic comparison of character sequences, with the
//! ordering facts the sorters build on.

use vstd::prelude::*;
use core::cmp::Ordering;

verus! {

/// Lexicographic three-way comparison by Unicode scalar value.
pub open spec fn seq_cmp(a: Seq<char>, b: Seq<char>) -> Ordering
    decreases a.len(),
{
    if a.len() == 0 && b.len() == 0 {
        Ordering::Equal
    } else if a.len() == 0 {
        Ordering::Less
    } else if b.len() == 0 {
        Ordering::Greater
    } else if (a[0] as int) < (b[0] as int) {
        Ordering::Less
    } else if (a[0] as int) > (b[0] as int) {
        Ordering::Greater
    } else {
        seq_cmp(a.drop_first(), b.drop_first())
    }
}

/// The opposite ordering.
pub open spec fn flip(o: Ordering) -> Ordering {
    match o {
        Ordering::Less => Ordering::Greater,
        Ordering::Equal => Ordering::Equal,
        Ordering::Greater => Ordering::Less,
    }
}

/// Swapping the arguments flips the comparison.
pub proof fn lemma_seq_cmp_flip(a: Seq<char>, b: Seq<char>)
    ensures
        seq_cmp(b, a) == flip(seq_cmp(a, b)),
    decreases a.len(),
{
    if a.len() > 0 && b.len() > 0 && a[0] == b[0] {
        lemma_seq_cmp_flip(a.drop_first(), b.drop_first());
    }
}

/// Only equal sequences compare equal.
pub proof fn lemma_seq_cmp_eq(a: Seq<char>, b: Seq<char>)
    ensures
        (seq_cmp(a, b) == Ordering::Equal) == (a == b),
    decreases a.len(),
{
    if a.len() == 0 && b.len() == 0 {
        assert(a =~= b);
    } else if a.len() > 0 && b.len() > 0 && a[0] == b[0] {
        lemma_seq_cmp_eq(a.drop_first(), b.drop_first());
        if seq_cmp(a, b) == Ordering::Equal {
            assert(a =~= seq![a[0]] + a.drop_first());
            assert(b =~= seq![b[0]] + b.drop_first());
        }
        if a == b {
            assert(a.drop_first() =~= b.drop_first());
        }
    } else {
        if a == b {
            assert(a.len() == b.len());
            if a.len() > 0 {
                assert(a[0] == b[0]);
            }
        }
    }
}

/// `not greater` chains: the lexicographic order is transitive.
pub proof fn lemma_seq_cmp_trans(a: Seq<char>, b: Seq<char>, c: Seq<char>)
    requires
        seq_cmp(a, b) != Ordering::Greater,
        seq_cmp(b, c) != Ordering::Greater,
    ensures
        seq_cmp(a, c) != Ordering::Greater,
    decreases a.len() + b.len() + c.len(),
{
    if a.len() == 0 {
        // a compares at or below everything
    } else if b.len() == 0 {
        assert(seq_cmp(a, b) == Ordering::Greater);
    } else if c.len() == 0 {
        assert(seq_cmp(b, c) == Ordering::Greater);
    } else {
        if (a[0] as int) < (c[0] as int) {
        } else if (a[0] as int) > (c[0] as int) {
            assert((a[0] as int) <= (b[0] as int));
            assert((b[0] as int) <= (c[0] as int));
        } else {
            if a[0] == b[0] && b[0] == c[0] {
                lemma_seq_cmp_trans(a.drop_first(), b.drop_first(), c.drop_first());
            } else {
                assert((a[0] as int) <= (b[0] as int) && (b[0] as int) <= (c[0] as int));
                assert((a[0] as int) == (c[0] as int));
                assert(a[0] as int == b[0] as int);
                assert(a[0] == b[0] && b[0] == c[0]);
            }
        }
    }
}

/// Three-way comparison of two character vectors.
pub fn chars_cmp(a: &Vec<char>, b: &Vec<char>) -> (o: Ordering)
    ensures
        o == seq_cmp(a@, b@),
{
    let an = a.len();
    let bn = b.len();
    let mut i: usize = 0;
    proof {
        assert(a@.skip(0) =~= a@);
        assert(b@.skip(0) =~= b@);
    }
    loop
        invariant
            an == a@.len(),
            bn == b@.len(),
            i <= an,
            i <= bn,
            seq_cmp(a@, b@) == seq_cmp(a@.skip(i as int), b@.skip(i as int)),
        ensures
            seq_cmp(a@, b@) == seq_cmp(a@.skip(i as int), b@.skip(i as int)),
            i <= an,
            i <= bn,
            i == an || i == bn || a@[i as int] != b@[i as int],
        decreases an - i,
    {
        if i >= an || i >= bn {
            break;
        }
        if a[i] != b[i] {
            break;
        }
        proof {
            let sa = a@.skip(i as int);
            let sb = b@.skip(i as int);
            assert(sa[0] == a@[i as int]);
            assert(sb[0] == b@[i as int]);
            assert(sa.drop_first() =~= a@.skip(i + 1));
            assert(sb.drop_first() =~= b@.skip(i + 1));
        }
        i = i + 1;
    }
    proof {
        let sa = a@.skip(i as int);
        let sb = b@.skip(i as int);
        assert(sa.len() == an - i);
        assert(sb.len() == bn - i);
        if i < an {
            assert(sa[0] == a@[i as int]);
        }
        if i < bn {
            assert(sb[0] == b@[i as int]);
        }
    }
    if i == an && i == bn {
        Ordering::Equal
    } else if i == an {
        Ordering::Less
    } else if i == bn {
        Ordering::Greater
    } else {
        if a[i] < b[i] {
            Ordering::Less
        } else {
            Ordering::Greater
        }
    }
}

} // verus!
