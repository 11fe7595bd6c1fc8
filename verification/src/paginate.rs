//! The concurrent paginator's control state and the partition merger.
//!
//! The paginator decides which page offsets to request and when to stop;
//! the caller performs the fetches (concurrently if it likes, up to its own
//! ceiling) and records each page here in dispatch order.  A page shorter
//! than the page size exhausts the paginator: no further offsets are
//! scheduled, though pages already in flight may still be recorded.

use vstd::prelude::*;
use vstd::arithmetic::div_mod::lemma_fundamental_div_mod;
use vstd::arithmetic::mul::lemma_mul_inequality;
use crate::friends::Friend;

verus! {

/// Control state of one partition's paginated retrieval, plus the items
/// collected so far in dispatch order.
pub struct Paginator<T> {
    pub page_size: usize,
    pub max_pages: usize,
    pub dispatched: usize,
    pub exhausted: bool,
    pub items: Vec<T>,
}

/// The page cap: enough pages to over-fetch twice a requested limit (at
/// least three), a fixed default of twenty without one, and never so many
/// that an offset could overflow.
pub open spec fn spec_max_pages(page_size: int, limit: Option<usize>) -> int {
    let raw = match limit {
        Some(l) => {
            let c = (2 * l + page_size - 1) / page_size;
            if c < 3 {
                3
            } else {
                c
            }
        },
        None => 20,
    };
    let cap = usize::MAX as int / page_size;
    if raw > cap {
        cap
    } else {
        raw
    }
}

impl<T> Paginator<T> {
    /// The state invariant: a positive page size, a dispatch count within
    /// the cap, and a cap small enough that offsets fit the machine.
    pub open spec fn wf(&self) -> bool {
        &&& self.page_size > 0
        &&& self.dispatched <= self.max_pages
        &&& self.max_pages * self.page_size <= usize::MAX
    }

    /// A fresh paginator for one partition.
    pub fn new(page_size: usize, limit: Option<usize>) -> (p: Paginator<T>)
        requires
            page_size > 0,
        ensures
            p.wf(),
            p.page_size == page_size,
            p.max_pages == spec_max_pages(page_size as int, limit),
            p.dispatched == 0,
            !p.exhausted,
            p.items@ == Seq::<T>::empty(),
    {
        let cap: usize = usize::MAX / page_size;
        let raw: u128 = match limit {
            Some(l) => {
                let c = (2 * (l as u128) + (page_size as u128) - 1) / (page_size as u128);
                if c < 3 {
                    3
                } else {
                    c
                }
            },
            None => 20,
        };
        let max_pages: usize = if raw > cap as u128 {
            cap
        } else {
            raw as usize
        };
        proof {
            lemma_fundamental_div_mod(usize::MAX as int, page_size as int);
            lemma_mul_inequality(
                max_pages as int,
                usize::MAX as int / page_size as int,
                page_size as int,
            );
        }
        Paginator {
            page_size,
            max_pages,
            dispatched: 0,
            exhausted: false,
            items: Vec::new(),
        }
    }

    /// Whether another offset may still be scheduled.
    pub open spec fn can_dispatch(&self) -> bool {
        !self.exhausted && self.dispatched < self.max_pages
    }

    /// The next offset to request: page offsets grow by one page size per
    /// dispatch, and nothing is scheduled once the paginator is exhausted
    /// or the page cap is reached.
    pub fn next_offset(&mut self) -> (r: Option<usize>)
        requires
            old(self).wf(),
        ensures
            final(self).wf(),
            final(self).page_size == old(self).page_size,
            final(self).max_pages == old(self).max_pages,
            final(self).exhausted == old(self).exhausted,
            final(self).items == old(self).items,
            match r {
                Some(off) => old(self).can_dispatch() && off == old(self).dispatched * old(
                    self,
                ).page_size && final(self).dispatched == old(self).dispatched + 1,
                None => !old(self).can_dispatch() && final(self).dispatched == old(
                    self,
                ).dispatched,
            },
    {
        if self.exhausted || self.dispatched >= self.max_pages {
            return None;
        }
        proof {
            lemma_mul_inequality(
                self.dispatched as int,
                self.max_pages as int,
                self.page_size as int,
            );
        }
        let off = self.dispatched * self.page_size;
        self.dispatched = self.dispatched + 1;
        Some(off)
    }

    /// What recording a page of the given length does to exhaustion: a page
    /// shorter than the page size (an empty one included) is the signal
    /// that the collection is exhausted, and exhaustion is never undone.
    pub open spec fn step_exhausted(exhausted: bool, page_len: int, page_size: int) -> bool {
        exhausted || page_len < page_size
    }

    /// Record one fetched page, in dispatch order.  The items are appended
    /// and a short page exhausts the paginator.
    pub fn record_page(&mut self, page: Vec<T>)
        requires
            old(self).wf(),
        ensures
            final(self).wf(),
            final(self).page_size == old(self).page_size,
            final(self).max_pages == old(self).max_pages,
            final(self).dispatched == old(self).dispatched,
            final(self).items@ == old(self).items@ + page@,
            final(self).exhausted == Self::step_exhausted(
                old(self).exhausted,
                page@.len() as int,
                old(self).page_size as int,
            ),
    {
        if page.len() < self.page_size {
            self.exhausted = true;
        }
        let mut p = page;
        self.items.append(&mut p);
    }

    /// The collected items, flattened in dispatch order.
    pub fn into_items(self) -> (r: Vec<T>)
        ensures
            r@ == self.items@,
    {
        self.items
    }

    /// Exhaustion after a whole run of recorded page lengths.
    pub open spec fn run_exhausted(exhausted: bool, lens: Seq<int>, page_size: int) -> bool
        decreases lens.len(),
    {
        if lens.len() == 0 {
            exhausted
        } else {
            Self::run_exhausted(
                Self::step_exhausted(exhausted, lens[0], page_size),
                lens.drop_first(),
                page_size,
            )
        }
    }

    /// Exhaustion never goes away: whatever pages are still recorded, an
    /// exhausted paginator stays exhausted.
    pub proof fn lemma_exhausted_sticky(lens: Seq<int>, page_size: int)
        ensures
            Self::run_exhausted(true, lens, page_size),
        decreases lens.len(),
    {
        if lens.len() > 0 {
            Self::lemma_exhausted_sticky(lens.drop_first(), page_size);
        }
    }

    /// Pagination terminates: as soon as any recorded page is shorter than
    /// the page size, the paginator ends the run exhausted — and an
    /// exhausted paginator schedules no further offsets (`next_offset`
    /// returns `None`).
    pub proof fn lemma_pagination_termination(
        exhausted: bool,
        lens: Seq<int>,
        page_size: int,
        k: int,
    )
        requires
            0 <= k < lens.len(),
            lens[k] < page_size,
        ensures
            Self::run_exhausted(exhausted, lens, page_size),
        decreases k,
    {
        if k == 0 {
            Self::lemma_exhausted_sticky(lens.drop_first(), page_size);
        } else {
            Self::lemma_pagination_termination(
                Self::step_exhausted(exhausted, lens[0], page_size),
                lens.drop_first(),
                page_size,
                k - 1,
            );
        }
    }
}

/// The ids of a run of friends, in order.
pub open spec fn has_id(s: Seq<Friend>, id: Seq<char>) -> bool {
    exists|i: int| 0 <= i < s.len() && #[trigger] s[i].id@ == id
}

/// The run with every record dropped whose id appeared earlier: the first
/// occurrence of each id is the one kept.
pub open spec fn spec_dedup(s: Seq<Friend>) -> Seq<Friend>
    decreases s.len(),
{
    if s.len() == 0 {
        Seq::<Friend>::empty()
    } else if has_id(s.drop_last(), s.last().id@) {
        spec_dedup(s.drop_last())
    } else {
        spec_dedup(s.drop_last()).push(s.last())
    }
}

/// Dedup keeps exactly the ids that were there.
pub proof fn lemma_dedup_ids(s: Seq<Friend>, id: Seq<char>)
    ensures
        has_id(spec_dedup(s), id) == has_id(s, id),
    decreases s.len(),
{
    if s.len() > 0 {
        let front = s.drop_last();
        lemma_dedup_ids(front, id);
        let d = spec_dedup(s);
        if has_id(s, id) {
            let i = choose|i: int| 0 <= i < s.len() && #[trigger] s[i].id@ == id;
            if i < s.len() - 1 {
                assert(front[i].id@ == id);
                assert(has_id(front, id));
                if !has_id(front, s.last().id@) {
                    let df = spec_dedup(front);
                    assert(has_id(df, id));
                    let j = choose|j: int| 0 <= j < df.len() && #[trigger] df[j].id@ == id;
                    assert(d[j].id@ == id);
                }
            } else {
                if has_id(front, s.last().id@) {
                    assert(has_id(front, id));
                } else {
                    let dd = spec_dedup(front).push(s.last());
                    assert(dd[dd.len() - 1].id@ == id);
                    assert(has_id(dd, id));
                }
            }
        }
        if has_id(d, id) {
            let i = choose|i: int| 0 <= i < d.len() && #[trigger] d[i].id@ == id;
            if has_id(front, s.last().id@) {
                assert(has_id(front, id));
                let j = choose|j: int| 0 <= j < front.len() && #[trigger] front[j].id@ == id;
                assert(s[j].id@ == id);
            } else {
                let dd = spec_dedup(front);
                if i < dd.len() {
                    assert(dd[i].id@ == id);
                    assert(has_id(front, id));
                    let j = choose|j: int| 0 <= j < front.len() && #[trigger] front[j].id@ == id;
                    assert(s[j].id@ == id);
                } else {
                    assert(d[i] == s.last());
                    assert(s[s.len() - 1].id@ == id);
                }
            }
        }
    }
}

/// After dedup every id occurs exactly once: no two records share one.
pub proof fn lemma_dedup_unique(s: Seq<Friend>)
    ensures
        forall|i: int, j: int|
            0 <= i < j < spec_dedup(s).len() ==> #[trigger] spec_dedup(s)[i].id@ != #[trigger] spec_dedup(
                s,
            )[j].id@,
    decreases s.len(),
{
    if s.len() > 0 {
        let front = s.drop_last();
        lemma_dedup_unique(front);
        let d = spec_dedup(s);
        if !has_id(front, s.last().id@) {
            let df = spec_dedup(front);
            assert forall|i: int, j: int| 0 <= i < j < d.len() implies #[trigger] d[i].id@
                != #[trigger] d[j].id@ by {
                if j < d.len() - 1 {
                    assert(d[i] == df[i] && d[j] == df[j]);
                } else {
                    assert(d[j] == s.last());
                    assert(d[i] == df[i]);
                    lemma_dedup_ids(front, d[i].id@);
                    assert(has_id(df, df[i].id@));
                }
            }
        }
    }
}

/// A run whose ids are already unique is left exactly as it is.
pub proof fn lemma_dedup_of_unique(s: Seq<Friend>)
    requires
        forall|i: int, j: int| 0 <= i < j < s.len() ==> #[trigger] s[i].id@ != #[trigger] s[j].id@,
    ensures
        spec_dedup(s) == s,
    decreases s.len(),
{
    if s.len() == 0 {
        assert(spec_dedup(s) =~= s);
    } else {
        let front = s.drop_last();
        assert(forall|i: int, j: int|
            0 <= i < j < front.len() ==> #[trigger] front[i].id@ != #[trigger] front[j].id@) by {
            assert(forall|i: int| 0 <= i < front.len() ==> front[i] == s[i]);
        }
        lemma_dedup_of_unique(front);
        assert(!has_id(front, s.last().id@)) by {
            if has_id(front, s.last().id@) {
                let i = choose|i: int|
                    0 <= i < front.len() && #[trigger] front[i].id@ == s.last().id@;
                assert(s[i].id@ == s[s.len() - 1].id@);
            }
        }
        assert(spec_dedup(s) =~= s);
    }
}

/// Merging twice changes nothing more: dedup is idempotent.
pub proof fn lemma_dedup_idempotent(s: Seq<Friend>)
    ensures
        spec_dedup(spec_dedup(s)) == spec_dedup(s),
{
    lemma_dedup_unique(s);
    lemma_dedup_of_unique(spec_dedup(s));
}

/// Whether any record in the vector carries this id.
fn contains_id(v: &Vec<Friend>, id: &String) -> (r: bool)
    ensures
        r == has_id(v@, id@),
{
    let n = v.len();
    for i in 0..n
        invariant
            n == v@.len(),
            forall|j: int| 0 <= j < i ==> #[trigger] v@[j].id@ != id@,
    {
        if crate::strutil::chars_eq(
            &crate::text::to_chars(v[i].id.as_str()),
            &crate::text::to_chars(id.as_str()),
        ) {
            return true;
        }
    }
    false
}

/// Keep only the first occurrence of each id, in order of first appearance.
pub fn dedup_by_id(items: Vec<Friend>) -> (r: Vec<Friend>)
    ensures
        r@ == spec_dedup(items@),
        forall|i: int, j: int| 0 <= i < j < r@.len() ==> #[trigger] r@[i].id@ != #[trigger] r@[j].id@,
        forall|id: Seq<char>| has_id(r@, id) == has_id(items@, id),
{
    let ghost orig = items@;
    let mut rest = items;
    let mut out: Vec<Friend> = Vec::new();
    let ghost mut k: int = 0;
    proof {
        assert(orig.take(0) =~= Seq::<Friend>::empty());
        assert(orig.skip(0) =~= orig);
        assert(out@ =~= spec_dedup(orig.take(0)));
    }
    while rest.len() > 0
        invariant
            0 <= k <= orig.len(),
            rest@ =~= orig.skip(k),
            out@ == spec_dedup(orig.take(k)),
        decreases rest@.len(),
    {
        let x = rest.remove(0);
        proof {
            assert(x == orig[k]);
            assert(orig.skip(k).remove(0) =~= orig.skip(k + 1));
            assert(orig.take(k + 1).drop_last() =~= orig.take(k));
            assert(orig.take(k + 1).last() == orig[k]);
        }
        let dup = contains_id(&out, &x.id);
        proof {
            lemma_dedup_ids(orig.take(k), x.id@);
        }
        if !dup {
            out.push(x);
        }
        proof {
            k = k + 1;
        }
    }
    proof {
        assert(orig.take(orig.len() as int) =~= orig);
        lemma_dedup_unique(orig);
        assert forall|id: Seq<char>| has_id(out@, id) == has_id(orig, id) by {
            lemma_dedup_ids(orig, id);
        }
    }
    out
}

/// The deduplicated union of two partitions' results: every id exactly
/// once, the copy from the earlier partition kept on overlap.
pub fn merge_partitions(first: Vec<Friend>, second: Vec<Friend>) -> (r: Vec<Friend>)
    ensures
        r@ == spec_dedup(first@ + second@),
        forall|i: int, j: int| 0 <= i < j < r@.len() ==> #[trigger] r@[i].id@ != #[trigger] r@[j].id@,
        forall|id: Seq<char>| has_id(r@, id) == has_id(first@ + second@, id),
{
    let mut all = first;
    let mut tail = second;
    all.append(&mut tail);
    dedup_by_id(all)
}

} // verus!
