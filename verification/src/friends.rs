//! The friend record and the sorter: a fixed vocabulary of comparison
//! strategies with optional reversal, applied before any result limit.

use vstd::prelude::*;
use vstd::relations::sorted_by;
use vstd::multiset::Multiset;
use vstd::seq_lib::lemma_multiset_commutative;
use vstd::seq_lib::group_to_multiset_ensures;
use core::cmp::Ordering;
use crate::order::{chars_cmp, flip, lemma_seq_cmp_eq, lemma_seq_cmp_flip, lemma_seq_cmp_trans, seq_cmp};
use crate::strutil::{chars_eq_str, contains_lit, contains_seq, lower_chars, lower_of};
use crate::text::to_chars;
use crate::utils::{get_status_priority, spec_status_priority, status_label, UserStatus};
use crate::json::{fields_view, lemma_obj_key_empty, lemma_obj_key_push, obj_has_key, JsonObject, JsonValue, JsonValV};
use crate::table::{TableColumnNames, TableDisplayable};

verus! {

broadcast use group_to_multiset_ensures, vstd::string::group_string_axioms;

/// One friend record, as the pipeline carries it.
pub struct Friend {
    pub id: String,
    pub display_name: String,
    pub status: UserStatus,
    pub last_platform: String,
    pub location: String,
    pub status_description: String,
    pub last_activity: Option<String>,
}

/// Filter and sort options for listing friends.
#[derive(Debug, Clone)]
pub struct ListFilterOptions {
    pub offline: bool,
    pub online: bool,
    pub limit: Option<usize>,
    pub sort_method: String,
    pub reverse: bool,
}

/// A loose check of the user-id shape: the modern prefix, or the
/// eight-character legacy length.
pub fn is_valid_user_id(user_id: &str) -> (r: bool)
    ensures
        r == (crate::strutil::is_prefix_of("usr_"@, user_id@) || user_id@.len() == 8),
{
    let v = to_chars(user_id);
    crate::strutil::starts_with_lit(&v, "usr_") || v.len() == 8
}

/// A timestamp for the activity column: the value itself, or a dash when
/// there is none.
pub fn format_activity_time(activity: &Option<String>) -> (r: String)
    ensures
        r@ == match activity {
            Some(t) => t@,
            None => "-"@,
        },
{
    match activity {
        Some(t) => t.clone(),
        None => "-".to_owned(),
    }
}

/// The supported sorting methods for the friends list.
#[derive(Debug, Clone, Copy)]
pub enum SortMethod {
    Name,
    Status,
    Activity,
    Platform,
    Id,
}

/// The method a lowercased name selects, if any.
pub open spec fn spec_sort_method_from(l: Seq<char>) -> Option<SortMethod> {
    if l == "name"@ {
        Some(SortMethod::Name)
    } else if l == "status"@ {
        Some(SortMethod::Status)
    } else if l == "activity"@ {
        Some(SortMethod::Activity)
    } else if l == "platform"@ {
        Some(SortMethod::Platform)
    } else if l == "id"@ {
        Some(SortMethod::Id)
    } else {
        None
    }
}

/// The method used after the lenient fallback: an unrecognized name falls
/// back to sorting by name.
pub open spec fn spec_resolved_method(l: Seq<char>) -> SortMethod {
    match spec_sort_method_from(l) {
        Some(m) => m,
        None => SortMethod::Name,
    }
}

impl SortMethod {
    /// Parse a sort method name, case-insensitively.
    pub fn from_str(s: &str) -> (r: Option<SortMethod>)
        ensures
            r == spec_sort_method_from(lower_of(s@)),
    {
        let l = lower_chars(s);
        if chars_eq_str(&l, "name") {
            Some(SortMethod::Name)
        } else if chars_eq_str(&l, "status") {
            Some(SortMethod::Status)
        } else if chars_eq_str(&l, "activity") {
            Some(SortMethod::Activity)
        } else if chars_eq_str(&l, "platform") {
            Some(SortMethod::Platform)
        } else if chars_eq_str(&l, "id") {
            Some(SortMethod::Id)
        } else {
            None
        }
    }

    /// Every accepted sort method name.
    pub fn all_methods() -> (r: Vec<&'static str>)
        ensures
            r@.len() == 5,
            r@[0]@ == "name"@ && r@[1]@ == "status"@ && r@[2]@ == "activity"@ && r@[3]@
                == "platform"@ && r@[4]@ == "id"@,
    {
        let mut v: Vec<&'static str> = Vec::new();
        v.push("name");
        v.push("status");
        v.push("activity");
        v.push("platform");
        v.push("id");
        v
    }
}

/// The case-folded display name, the tie-break key of most methods.
pub open spec fn name_key(f: Friend) -> Seq<char> {
    lower_of(f.display_name@)
}

/// The grouping key for platform sorting: known platform families get a
/// numbered bucket, anything else sorts after them under its literal tag.
pub open spec fn spec_platform_sort_key(p: Seq<char>) -> Seq<char> {
    if contains_seq(lower_of(p), "windows"@) || contains_seq(lower_of(p), "standalonewindows"@) {
        "1_PC"@
    } else if contains_seq(lower_of(p), "android"@) {
        "2_Quest"@
    } else if contains_seq(lower_of(p), "ios"@) {
        "3_iOS"@
    } else {
        "9_"@ + p
    }
}

/// Three-way comparison of two friends under one method, tie-breaks
/// included.
pub open spec fn friend_cmp(m: SortMethod, a: Friend, b: Friend) -> Ordering {
    match m {
        SortMethod::Name => seq_cmp(name_key(a), name_key(b)),
        SortMethod::Status => {
            let pa = spec_status_priority(a.status);
            let pb = spec_status_priority(b.status);
            if pa < pb {
                Ordering::Less
            } else if pa > pb {
                Ordering::Greater
            } else {
                seq_cmp(name_key(a), name_key(b))
            }
        },
        SortMethod::Activity => {
            match (a.last_activity, b.last_activity) {
                (Some(x), Some(y)) => seq_cmp(y@, x@),
                (Some(x), None) => Ordering::Less,
                (None, Some(y)) => Ordering::Greater,
                (None, None) => seq_cmp(name_key(a), name_key(b)),
            }
        },
        SortMethod::Platform => {
            let ka = spec_platform_sort_key(a.last_platform@);
            let kb = spec_platform_sort_key(b.last_platform@);
            if seq_cmp(ka, kb) == Ordering::Equal {
                seq_cmp(name_key(a), name_key(b))
            } else {
                seq_cmp(ka, kb)
            }
        },
        SortMethod::Id => seq_cmp(a.id@, b.id@),
    }
}

/// The sorter's order: at-or-before under the method, with the whole
/// composed comparison reversed when `rev` is set.
pub open spec fn friend_le(m: SortMethod, rev: bool, a: Friend, b: Friend) -> bool {
    if rev {
        friend_cmp(m, a, b) != Ordering::Less
    } else {
        friend_cmp(m, a, b) != Ordering::Greater
    }
}

/// The order as a relation value, for `sorted_by`.
pub open spec fn friend_leq(m: SortMethod, rev: bool) -> spec_fn(Friend, Friend) -> bool {
    |a: Friend, b: Friend| friend_le(m, rev, a, b)
}

/// Swapping the arguments flips the comparison.
pub proof fn lemma_friend_cmp_flip(m: SortMethod, a: Friend, b: Friend)
    ensures
        friend_cmp(m, b, a) == flip(friend_cmp(m, a, b)),
{
    match m {
        SortMethod::Name => lemma_seq_cmp_flip(name_key(a), name_key(b)),
        SortMethod::Status => lemma_seq_cmp_flip(name_key(a), name_key(b)),
        SortMethod::Activity => {
            match (a.last_activity, b.last_activity) {
                (Some(x), Some(y)) => lemma_seq_cmp_flip(y@, x@),
                (None, None) => lemma_seq_cmp_flip(name_key(a), name_key(b)),
                _ => (),
            }
        },
        SortMethod::Platform => {
            let ka = spec_platform_sort_key(a.last_platform@);
            let kb = spec_platform_sort_key(b.last_platform@);
            lemma_seq_cmp_flip(ka, kb);
            lemma_seq_cmp_eq(ka, kb);
            lemma_seq_cmp_eq(kb, ka);
            lemma_seq_cmp_flip(name_key(a), name_key(b));
        },
        SortMethod::Id => lemma_seq_cmp_flip(a.id@, b.id@),
    }
}

/// The order is total: two friends always compare one way or the other.
pub proof fn lemma_friend_le_total(m: SortMethod, rev: bool, a: Friend, b: Friend)
    ensures
        friend_le(m, rev, a, b) || friend_le(m, rev, b, a),
{
    lemma_friend_cmp_flip(m, a, b);
}

/// A record always compares equal to itself.
pub proof fn lemma_friend_cmp_refl(m: SortMethod, a: Friend)
    ensures
        friend_cmp(m, a, a) == Ordering::Equal,
{
    match m {
        SortMethod::Name => lemma_seq_cmp_eq(name_key(a), name_key(a)),
        SortMethod::Status => lemma_seq_cmp_eq(name_key(a), name_key(a)),
        SortMethod::Activity => {
            match a.last_activity {
                Some(x) => lemma_seq_cmp_eq(x@, x@),
                None => lemma_seq_cmp_eq(name_key(a), name_key(a)),
            }
        },
        SortMethod::Platform => {
            let ka = spec_platform_sort_key(a.last_platform@);
            lemma_seq_cmp_eq(ka, ka);
            lemma_seq_cmp_eq(name_key(a), name_key(a));
        },
        SortMethod::Id => lemma_seq_cmp_eq(a.id@, a.id@),
    }
}

/// Comparing equal means equal keys all the way down the tie-breaks.
proof fn lemma_friend_cmp_trans(m: SortMethod, a: Friend, b: Friend, c: Friend)
    requires
        friend_cmp(m, a, b) != Ordering::Greater,
        friend_cmp(m, b, c) != Ordering::Greater,
    ensures
        friend_cmp(m, a, c) != Ordering::Greater,
{
    match m {
        SortMethod::Name => lemma_seq_cmp_trans(name_key(a), name_key(b), name_key(c)),
        SortMethod::Status => {
            if spec_status_priority(a.status) == spec_status_priority(b.status)
                && spec_status_priority(b.status) == spec_status_priority(c.status) {
                lemma_seq_cmp_trans(name_key(a), name_key(b), name_key(c));
            }
        },
        SortMethod::Activity => {
            match (a.last_activity, b.last_activity, c.last_activity) {
                (Some(x), Some(y), Some(z)) => lemma_seq_cmp_trans(z@, y@, x@),
                (None, None, None) => lemma_seq_cmp_trans(name_key(a), name_key(b), name_key(c)),
                _ => (),
            }
        },
        SortMethod::Platform => {
            let ka = spec_platform_sort_key(a.last_platform@);
            let kb = spec_platform_sort_key(b.last_platform@);
            let kc = spec_platform_sort_key(c.last_platform@);
            lemma_seq_cmp_eq(ka, kb);
            lemma_seq_cmp_eq(kb, kc);
            lemma_seq_cmp_eq(ka, kc);
            lemma_seq_cmp_flip(ka, kb);
            lemma_seq_cmp_flip(kb, kc);
            lemma_seq_cmp_flip(ka, kc);
            lemma_seq_cmp_trans(ka, kb, kc);
            if ka == kb && kb == kc {
                lemma_seq_cmp_trans(name_key(a), name_key(b), name_key(c));
            }
        },
        SortMethod::Id => lemma_seq_cmp_trans(a.id@, b.id@, c.id@),
    }
}

/// The order is transitive, reversed or not.
pub proof fn lemma_friend_le_trans(m: SortMethod, rev: bool, a: Friend, b: Friend, c: Friend)
    requires
        friend_le(m, rev, a, b),
        friend_le(m, rev, b, c),
    ensures
        friend_le(m, rev, a, c),
{
    if rev {
        lemma_friend_cmp_flip(m, a, b);
        lemma_friend_cmp_flip(m, b, c);
        lemma_friend_cmp_flip(m, a, c);
        lemma_friend_cmp_trans(m, c, b, a);
    } else {
        lemma_friend_cmp_trans(m, a, b, c);
    }
}

/// The platform grouping key, executable.
fn platform_key_chars(p: &str) -> (r: Vec<char>)
    ensures
        r@ == spec_platform_sort_key(p@),
{
    let lp = lower_chars(p);
    if contains_lit(&lp, "windows") || contains_lit(&lp, "standalonewindows") {
        to_chars("1_PC")
    } else if contains_lit(&lp, "android") {
        to_chars("2_Quest")
    } else if contains_lit(&lp, "ios") {
        to_chars("3_iOS")
    } else {
        let mut out = to_chars("9_");
        let mut rest = to_chars(p);
        let ghost pre = out@;
        out.append(&mut rest);
        proof {
            assert(out@ =~= pre + p@);
        }
        out
    }
}

/// Three-way comparison of two friends, executable.
fn friend_cmp_exec(a: &Friend, b: &Friend, method: SortMethod) -> (o: Ordering)
    ensures
        o == friend_cmp(method, *a, *b),
{
    match method {
        SortMethod::Name => {
            let la = lower_chars(a.display_name.as_str());
            let lb = lower_chars(b.display_name.as_str());
            chars_cmp(&la, &lb)
        },
        SortMethod::Status => {
            let pa = get_status_priority(&a.status);
            let pb = get_status_priority(&b.status);
            if pa < pb {
                Ordering::Less
            } else if pa > pb {
                Ordering::Greater
            } else {
                let la = lower_chars(a.display_name.as_str());
                let lb = lower_chars(b.display_name.as_str());
                chars_cmp(&la, &lb)
            }
        },
        SortMethod::Activity => {
            match (&a.last_activity, &b.last_activity) {
                (Some(x), Some(y)) => {
                    let cy = to_chars(y.as_str());
                    let cx = to_chars(x.as_str());
                    chars_cmp(&cy, &cx)
                },
                (Some(_), None) => Ordering::Less,
                (None, Some(_)) => Ordering::Greater,
                (None, None) => {
                    let la = lower_chars(a.display_name.as_str());
                    let lb = lower_chars(b.display_name.as_str());
                    chars_cmp(&la, &lb)
                },
            }
        },
        SortMethod::Platform => {
            let ka = platform_key_chars(a.last_platform.as_str());
            let kb = platform_key_chars(b.last_platform.as_str());
            let ord = chars_cmp(&ka, &kb);
            if matches!(ord, Ordering::Equal) {
                let la = lower_chars(a.display_name.as_str());
                let lb = lower_chars(b.display_name.as_str());
                chars_cmp(&la, &lb)
            } else {
                ord
            }
        },
        SortMethod::Id => {
            let ia = to_chars(a.id.as_str());
            let ib = to_chars(b.id.as_str());
            chars_cmp(&ia, &ib)
        },
    }
}

/// Whether `a` sorts at or before `b`, executable.
fn friend_le_exec(a: &Friend, b: &Friend, method: SortMethod, reverse: bool) -> (r: bool)
    ensures
        r == friend_le(method, reverse, *a, *b),
{
    let o = friend_cmp_exec(a, b, method);
    if reverse {
        !matches!(o, Ordering::Less)
    } else {
        !matches!(o, Ordering::Greater)
    }
}

/// `x` inserted into a sorted run: after every element at or before it,
/// ahead of the rest.
pub open spec fn insert_sorted(x: Friend, s: Seq<Friend>, m: SortMethod, rev: bool) -> Seq<Friend>
    decreases s.len(),
{
    if s.len() == 0 {
        seq![x]
    } else if friend_le(m, rev, s[0], x) {
        seq![s[0]] + insert_sorted(x, s.drop_first(), m, rev)
    } else {
        seq![x] + s
    }
}

/// Stable insertion sort of the whole sequence: the canonical result that
/// the sorter returns.
pub open spec fn spec_sort_friends(s: Seq<Friend>, m: SortMethod, rev: bool) -> Seq<Friend>
    decreases s.len(),
{
    if s.len() == 0 {
        Seq::<Friend>::empty()
    } else {
        insert_sorted(s.last(), spec_sort_friends(s.drop_last(), m, rev), m, rev)
    }
}

/// Inserting at the scan position is what `insert_sorted` does.
proof fn lemma_insert_at(x: Friend, s: Seq<Friend>, j: int, m: SortMethod, rev: bool)
    requires
        0 <= j <= s.len(),
        forall|k: int| 0 <= k < j ==> friend_le(m, rev, #[trigger] s[k], x),
        j < s.len() ==> !friend_le(m, rev, s[j], x),
    ensures
        insert_sorted(x, s, m, rev) =~= s.take(j) + seq![x] + s.skip(j),
    decreases j,
{
    if j == 0 {
        if s.len() == 0 {
            assert(insert_sorted(x, s, m, rev) =~= s.take(0) + seq![x] + s.skip(0));
        } else {
            assert(!friend_le(m, rev, s[0], x));
            assert(insert_sorted(x, s, m, rev) =~= s.take(0) + seq![x] + s.skip(0));
        }
    } else {
        assert(friend_le(m, rev, s[0], x));
        let rest = s.drop_first();
        assert(forall|k: int| 0 <= k < j - 1 ==> friend_le(m, rev, #[trigger] rest[k], x)) by {
            assert(forall|k: int| 0 <= k < j - 1 ==> rest[k] == s[k + 1]);
        }
        assert(j - 1 < rest.len() ==> !friend_le(m, rev, rest[j - 1], x));
        lemma_insert_at(x, rest, j - 1, m, rev);
        assert(insert_sorted(x, s, m, rev) =~= seq![s[0]] + (rest.take(j - 1) + seq![x]
            + rest.skip(j - 1)));
        assert(seq![s[0]] + rest.take(j - 1) =~= s.take(j));
        assert(rest.skip(j - 1) =~= s.skip(j));
        assert(seq![s[0]] + (rest.take(j - 1) + seq![x] + rest.skip(j - 1)) =~= s.take(j) + seq![x]
            + s.skip(j));
    }
}

/// Insertion keeps the run sorted and adds exactly one element.
proof fn lemma_insert_sorted_props(x: Friend, s: Seq<Friend>, m: SortMethod, rev: bool)
    requires
        sorted_by(s, friend_leq(m, rev)),
    ensures
        sorted_by(insert_sorted(x, s, m, rev), friend_leq(m, rev)),
        insert_sorted(x, s, m, rev).to_multiset() =~= s.to_multiset().insert(x),
        insert_sorted(x, s, m, rev).len() == s.len() + 1,
    decreases s.len(),
{
    let leq = friend_leq(m, rev);
    let r = insert_sorted(x, s, m, rev);
    if s.len() == 0 {
        assert(seq![x] =~= Seq::<Friend>::empty().push(x));
        assert(r.to_multiset() =~= s.to_multiset().insert(x));
        assert(sorted_by(r, leq));
    } else if friend_le(m, rev, s[0], x) {
        let rest = s.drop_first();
        assert(sorted_by(rest, leq)) by {
            assert(forall|i: int, j: int|
                0 <= i < j < rest.len() ==> #[trigger] leq(rest[i], rest[j]) == leq(
                    s[i + 1],
                    s[j + 1],
                ));
        }
        lemma_insert_sorted_props(x, rest, m, rev);
        let ri = insert_sorted(x, rest, m, rev);
        assert(r =~= seq![s[0]] + ri);
        // every element of the inserted tail sits at or after s[0]
        assert(forall|j: int| 1 <= j < r.len() ==> #[trigger] leq(r[0], r[j])) by {
            assert forall|j: int| 1 <= j < r.len() implies #[trigger] leq(r[0], r[j]) by {
                let e = r[j];
                assert(e == ri[j - 1]);
                assert(ri.contains(e));
                assert(ri.to_multiset().count(e) > 0);
                assert(rest.to_multiset().insert(x).count(e) > 0);
                if e == x {
                    assert(leq(s[0], x));
                } else {
                    assert(rest.to_multiset().count(e) > 0);
                    assert(rest.contains(e));
                    let k = choose|k: int| 0 <= k < rest.len() && rest[k] == e;
                    assert(leq(s[0], s[k + 1]));
                }
            }
        }
        assert(sorted_by(r, leq)) by {
            assert forall|i: int, j: int| 0 <= i < j < r.len() implies #[trigger] leq(
                r[i],
                r[j],
            ) by {
                if i == 0 {
                    assert(leq(r[0], r[j]));
                } else {
                    assert(r[i] == ri[i - 1] && r[j] == ri[j - 1]);
                    assert(leq(ri[i - 1], ri[j - 1]));
                }
            }
        }
        lemma_multiset_commutative(seq![s[0]], ri);
        assert(seq![s[0]].to_multiset() =~= Multiset::<Friend>::empty().insert(s[0])) by {
            assert(seq![s[0]] =~= Seq::<Friend>::empty().push(s[0]));
        }
        assert(s =~= seq![s[0]] + rest);
        lemma_multiset_commutative(seq![s[0]], rest);
        assert(r.to_multiset() =~= s.to_multiset().insert(x));
    } else {
        assert(r =~= seq![x] + s);
        lemma_friend_le_total(m, rev, s[0], x);
        assert(friend_le(m, rev, x, s[0]));
        assert(forall|j: int| 0 <= j < s.len() ==> #[trigger] leq(x, s[j])) by {
            assert forall|j: int| 0 <= j < s.len() implies #[trigger] leq(x, s[j]) by {
                if j > 0 {
                    assert(leq(s[0], s[j]));
                    lemma_friend_le_trans(m, rev, x, s[0], s[j]);
                }
            }
        }
        assert(sorted_by(r, leq)) by {
            assert forall|i: int, j: int| 0 <= i < j < r.len() implies #[trigger] leq(
                r[i],
                r[j],
            ) by {
                if i == 0 {
                    assert(r[j] == s[j - 1]);
                    assert(leq(x, s[j - 1]));
                } else {
                    assert(r[i] == s[i - 1] && r[j] == s[j - 1]);
                    assert(leq(s[i - 1], s[j - 1]));
                }
            }
        }
        lemma_multiset_commutative(seq![x], s);
        assert(seq![x].to_multiset() =~= Multiset::<Friend>::empty().insert(x)) by {
            assert(seq![x] =~= Seq::<Friend>::empty().push(x));
        }
        assert(r.to_multiset() =~= s.to_multiset().insert(x)) by {
            broadcast use vstd::multiset::group_multiset_axioms;
        }
    }
}

/// The canonical sort is sorted and keeps exactly the input's records.
pub proof fn lemma_sort_friends_props(s: Seq<Friend>, m: SortMethod, rev: bool)
    ensures
        sorted_by(spec_sort_friends(s, m, rev), friend_leq(m, rev)),
        spec_sort_friends(s, m, rev).to_multiset() =~= s.to_multiset(),
        spec_sort_friends(s, m, rev).len() == s.len(),
    decreases s.len(),
{
    if s.len() > 0 {
        let front = s.drop_last();
        lemma_sort_friends_props(front, m, rev);
        lemma_insert_sorted_props(s.last(), spec_sort_friends(front, m, rev), m, rev);
        assert(s =~= front.push(s.last()));
        assert(s.to_multiset() =~= front.to_multiset().insert(s.last()));
    }
}

/// Sort the friends list by the given method, reversing the whole composed
/// comparison when asked to.
pub fn sort_friends(friends: &mut Vec<Friend>, method: SortMethod, reverse: bool)
    ensures
        final(friends)@ == spec_sort_friends(old(friends)@, method, reverse),
{
    let ghost orig = friends@;
    let mut out: Vec<Friend> = Vec::new();
    let ghost mut k: int = 0;
    proof {
        assert(orig.take(0) =~= Seq::<Friend>::empty());
        assert(orig.skip(0) =~= orig);
    }
    while friends.len() > 0
        invariant
            0 <= k <= orig.len(),
            friends@ =~= orig.skip(k),
            out@ == spec_sort_friends(orig.take(k), method, reverse),
        decreases friends@.len(),
    {
        let x = friends.remove(0);
        proof {
            assert(x == orig[k]);
            assert(orig.skip(k).remove(0) =~= orig.skip(k + 1));
        }
        // scan for the insertion point: after every element at or before x
        let mut j: usize = 0;
        loop
            invariant
                j <= out@.len(),
                forall|i: int| 0 <= i < j ==> friend_le(method, reverse, #[trigger] out@[i], x),
            ensures
                j <= out@.len(),
                forall|i: int| 0 <= i < j ==> friend_le(method, reverse, #[trigger] out@[i], x),
                j < out@.len() ==> !friend_le(method, reverse, out@[j as int], x),
            decreases out@.len() - j,
        {
            if j >= out.len() {
                break;
            }
            if !friend_le_exec(&out[j], &x, method, reverse) {
                break;
            }
            j = j + 1;
        }
        proof {
            lemma_insert_at(x, out@, j as int, method, reverse);
        }
        let ghost out_pre = out@;
        out.insert(j, x);
        proof {
            assert(out@ =~= out_pre.take(j as int) + seq![x] + out_pre.skip(j as int));
            assert(out@ == insert_sorted(x, out_pre, method, reverse));
            assert(orig.take(k + 1).drop_last() =~= orig.take(k));
            assert(orig.take(k + 1).last() == orig[k]);
            k = k + 1;
        }
    }
    proof {
        assert(orig.take(orig.len() as int) =~= orig);
    }
    *friends = out;
}

/// Sort, then cut to the first `limit` records of the fully sorted list.
/// An unrecognized method name is not an error: it falls back to sorting by
/// name, and the caller is told so that it can warn.
pub fn apply_sort_and_limit(
    friends: &mut Vec<Friend>,
    sort_method: &str,
    reverse: bool,
    limit: Option<usize>,
) -> (warned: bool)
    ensures
        warned == (spec_sort_method_from(lower_of(sort_method@)) is None),
        ({
            let sorted = spec_sort_friends(
                old(friends)@,
                spec_resolved_method(lower_of(sort_method@)),
                reverse,
            );
            final(friends)@ == match limit {
                Some(n) => sorted.take(vstd::math::min(n as int, sorted.len() as int)),
                None => sorted,
            }
        }),
{
    let parsed = SortMethod::from_str(sort_method);
    let warned = parsed.is_none();
    let method = match parsed {
        Some(m) => m,
        None => SortMethod::Name,
    };
    sort_friends(friends, method, reverse);
    match limit {
        Some(n) => {
            let ghost sorted = friends@;
            friends.truncate(n);
            proof {
                if n <= sorted.len() {
                    assert(friends@ =~= sorted.take(
                        vstd::math::min(n as int, sorted.len() as int),
                    ));
                } else {
                    assert(friends@ =~= sorted.take(
                        vstd::math::min(n as int, sorted.len() as int),
                    ));
                }
            }
        },
        None => (),
    }
    warned
}

/// Sorting reversed yields the exact mirror of sorting forward, provided no
/// two distinct records compare equal under the method (ties between
/// distinct records keep their stable order instead and are left out here).
pub proof fn lemma_reverse_consistency(s: Seq<Friend>, m: SortMethod)
    requires
        forall|a: Friend, b: Friend|
            s.contains(a) && s.contains(b) && #[trigger] friend_cmp(m, a, b) == Ordering::Equal
                ==> a == b,
    ensures
        spec_sort_friends(s, m, true) =~= spec_sort_friends(s, m, false).reverse(),
{
    let asc = spec_sort_friends(s, m, false);
    let desc = spec_sort_friends(s, m, true);
    lemma_sort_friends_props(s, m, false);
    lemma_sort_friends_props(s, m, true);
    let rev_asc = asc.reverse();
    assert(sorted_by(rev_asc, friend_leq(m, true))) by {
        assert forall|i: int, j: int| 0 <= i < j < rev_asc.len() implies #[trigger] friend_leq(
            m,
            true,
        )(rev_asc[i], rev_asc[j]) by {
            let n = asc.len();
            assert(rev_asc[i] == asc[n - 1 - i]);
            assert(rev_asc[j] == asc[n - 1 - j]);
            assert(friend_leq(m, false)(asc[n - 1 - j], asc[n - 1 - i]));
            lemma_friend_cmp_flip(m, asc[n - 1 - j], asc[n - 1 - i]);
        }
    }
    asc.lemma_reverse_to_multiset();
    assert(forall|a: Friend, b: Friend|
        desc.contains(a) && desc.contains(b) && #[trigger] friend_cmp(m, a, b) == Ordering::Equal
            ==> a == b) by {
        assert forall|a: Friend, b: Friend|
            desc.contains(a) && desc.contains(b) && #[trigger] friend_cmp(m, a, b)
                == Ordering::Equal implies a == b by {
            assert(desc.to_multiset().count(a) > 0);
            assert(s.contains(a));
            assert(desc.to_multiset().count(b) > 0);
            assert(s.contains(b));
        }
    }
    lemma_sorted_unique_on(desc, rev_asc, m);
}

/// Two sorted arrangements of the same records are identical when no two
/// distinct records among them compare equal.
proof fn lemma_sorted_unique_on(x: Seq<Friend>, y: Seq<Friend>, m: SortMethod)
    requires
        sorted_by(x, friend_leq(m, true)),
        sorted_by(y, friend_leq(m, true)),
        x.to_multiset() == y.to_multiset(),
        forall|a: Friend, b: Friend|
            x.contains(a) && x.contains(b) && #[trigger] friend_cmp(m, a, b) == Ordering::Equal
                ==> a == b,
    ensures
        x =~= y,
    decreases x.len(),
{
    if x.len() == 0 {
        assert(y.to_multiset().len() == 0);
        assert(y.len() == 0);
    } else {
        assert(x.to_multiset().len() == x.len());
        assert(y.to_multiset().len() == y.len());
        assert(y.len() == x.len());
        let x0 = x[0];
        let y0 = y[0];
        // each head is in the other's records, so both heads compare equal
        assert(x.contains(x0));
        assert(y.contains(y0));
        assert(x.to_multiset().count(y0) > 0);
        assert(x.contains(y0));
        let kx = choose|k: int| 0 <= k < x.len() && x[k] == y0;
        assert(kx > 0 ==> friend_leq(m, true)(x[0], x[kx]));
        lemma_friend_cmp_refl(m, x0);
        assert(friend_le(m, true, x0, y0));
        assert(y.to_multiset().count(x0) > 0);
        assert(y.contains(x0));
        let ky = choose|k: int| 0 <= k < y.len() && y[k] == x0;
        assert(ky > 0 ==> friend_leq(m, true)(y[0], y[ky]));
        lemma_friend_cmp_refl(m, y0);
        assert(friend_le(m, true, y0, x0));
        lemma_friend_cmp_flip(m, x0, y0);
        assert(friend_cmp(m, x0, y0) == Ordering::Equal);
        assert(x0 == y0);
        // drop the shared head and recurse
        let xr = x.drop_first();
        let yr = y.drop_first();
        assert(xr =~= x.remove(0));
        assert(yr =~= y.remove(0));
        assert(xr.to_multiset() =~= x.to_multiset().remove(x0));
        assert(yr.to_multiset() =~= y.to_multiset().remove(y0));
        assert(sorted_by(xr, friend_leq(m, true))) by {
            assert(forall|i: int, j: int|
                0 <= i < j < xr.len() ==> #[trigger] friend_leq(m, true)(xr[i], xr[j])
                    == friend_leq(m, true)(x[i + 1], x[j + 1]));
        }
        assert(sorted_by(yr, friend_leq(m, true))) by {
            assert(forall|i: int, j: int|
                0 <= i < j < yr.len() ==> #[trigger] friend_leq(m, true)(yr[i], yr[j])
                    == friend_leq(m, true)(y[i + 1], y[j + 1]));
        }
        assert(forall|a: Friend| xr.contains(a) ==> x.contains(a)) by {
            assert forall|a: Friend| xr.contains(a) implies x.contains(a) by {
                let k = choose|k: int| 0 <= k < xr.len() && xr[k] == a;
                assert(x[k + 1] == a);
            }
        }
        lemma_sorted_unique_on(xr, yr, m);
        assert(x =~= seq![x0] + xr);
        assert(y =~= seq![y0] + yr);
    }
}


/// A friend wrapped for the renderers.
pub struct FriendTableItem<'a> {
    pub friend: &'a Friend,
}

impl<'a> FriendTableItem<'a> {
    /// Wrap a friend record for display.
    pub fn new(friend: &'a Friend) -> (r: FriendTableItem<'a>)
        ensures
            r.friend == friend,
    {
        FriendTableItem { friend }
    }

    /// The location as shown: private or empty locations normalized to the
    /// `private` sentinel.
    pub open spec fn sp_loc_value(&self) -> Seq<char> {
        if self.friend.location@.len() == 0 || self.friend.location@ == "private"@ {
            "private"@
        } else {
            self.friend.location@
        }
    }
}

impl<'a> TableDisplayable for FriendTableItem<'a> {
    open spec fn sp_name(&self) -> Seq<char> {
        self.friend.display_name@
    }

    open spec fn sp_id(&self) -> Option<Seq<char>> {
        Some(self.friend.id@)
    }

    open spec fn sp_status(&self) -> Option<Seq<char>> {
        Some(status_label(self.friend.status))
    }

    open spec fn sp_platform(&self) -> Option<Seq<char>> {
        Some(self.friend.last_platform@)
    }

    open spec fn sp_formatted_platform(&self) -> Option<Seq<char>> {
        Some(crate::utils::spec_platform_short(self.friend.last_platform@))
    }

    open spec fn sp_location(&self) -> Option<Seq<char>> {
        Some(self.sp_loc_value())
    }

    open spec fn sp_formatted_location(&self) -> Option<Seq<char>> {
        None
    }

    open spec fn sp_activity(&self) -> Option<Seq<char>> {
        match self.friend.last_activity {
            Some(a) => Some(a@),
            None => None,
        }
    }

    open spec fn sp_formatted_activity(&self) -> Option<Seq<char>> {
        None
    }

    open spec fn sp_column_names(&self) -> TableColumnNames {
        TableColumnNames {
            name: "Name",
            id: "ID",
            status: "Status",
            platform: "Platform",
            location: "Location",
            activity: "Activity",
        }
    }

    open spec fn sp_json_fields(&self, o: crate::OutputOptions) -> Seq<(Seq<char>, JsonValV)> {
        let f0 = seq![("display_name"@, JsonValV::Text(self.friend.display_name@))];
        let f1 = if o.show_id {
            f0.push(("id"@, JsonValV::Text(self.friend.id@)))
        } else {
            f0
        };
        let f2 = if o.show_status {
            f1.push(("status"@, JsonValV::Text(status_label(self.friend.status))))
        } else {
            f1
        };
        let f3 = if o.show_platform {
            f2.push(("platform"@, JsonValV::Text(self.friend.last_platform@)))
        } else {
            f2
        };
        let f4 = if o.show_location {
            f3.push(("location"@, JsonValV::Text(self.sp_loc_value())))
        } else {
            f3
        };
        if o.show_activity {
            match self.friend.last_activity {
                Some(a) => f4.push(("activity"@, JsonValV::Text(a@))),
                None => f4,
            }
        } else {
            f4
        }
    }

    fn display_name(&self) -> (r: &str) {
        self.friend.display_name.as_str()
    }

    fn id(&self) -> (r: Option<&str>) {
        Some(self.friend.id.as_str())
    }

    fn status(&self) -> (r: Option<String>) {
        Some(crate::utils::format_user_status(&self.friend.status, false))
    }

    fn colored_status(&self) -> (r: Option<String>) {
        Some(crate::utils::format_user_status(&self.friend.status, true))
    }

    fn platform(&self) -> (r: Option<&str>) {
        Some(self.friend.last_platform.as_str())
    }

    fn formatted_platform(&self) -> (r: Option<String>) {
        Some(crate::utils::format_platform_short(self.friend.last_platform.as_str()))
    }

    fn location(&self) -> (r: Option<&str>) {
        let v = to_chars(self.friend.location.as_str());
        if self.friend.location.as_str().is_empty() || chars_eq_str(&v, "private") {
            Some("private")
        } else {
            Some(self.friend.location.as_str())
        }
    }

    fn formatted_location(&self) -> (r: Option<String>) {
        None
    }

    fn activity(&self) -> (r: Option<&str>) {
        match &self.friend.last_activity {
            Some(a) => Some(a.as_str()),
            None => None,
        }
    }

    fn formatted_activity(&self) -> (r: Option<String>) {
        None
    }

    fn column_names(&self) -> (r: TableColumnNames) {
        TableColumnNames {
            name: "Name",
            id: "ID",
            status: "Status",
            platform: "Platform",
            location: "Location",
            activity: "Activity",
        }
    }

    fn to_json_object(&self, options: &crate::OutputOptions) -> (r: JsonObject) {
        let o = *options;
        let mut fields: Vec<(String, JsonValue)> = Vec::new();
        fields.push(
            ("display_name".to_owned(), JsonValue::Text(self.friend.display_name.clone())),
        );
        let ghost f0 = fields_view(fields@);
        if o.show_id {
            fields.push(("id".to_owned(), JsonValue::Text(self.friend.id.clone())));
        }
        let ghost f1 = fields_view(fields@);
        if o.show_status {
            fields.push(
                (
                    "status".to_owned(),
                    JsonValue::Text(crate::utils::format_user_status(&self.friend.status, false)),
                ),
            );
        }
        let ghost f2 = fields_view(fields@);
        if o.show_platform {
            fields.push(
                ("platform".to_owned(), JsonValue::Text(self.friend.last_platform.clone())),
            );
        }
        let ghost f3 = fields_view(fields@);
        if o.show_location {
            let v = to_chars(self.friend.location.as_str());
            let loc = if self.friend.location.as_str().is_empty() || chars_eq_str(&v, "private") {
                "private".to_owned()
            } else {
                self.friend.location.clone()
            };
            fields.push(("location".to_owned(), JsonValue::Text(loc)));
        }
        let ghost f4 = fields_view(fields@);
        if o.show_activity {
            match &self.friend.last_activity {
                Some(a) => {
                    fields.push(("activity".to_owned(), JsonValue::Text(a.clone())));
                },
                None => (),
            }
        }
        proof {
            lemma_friend_json_fields(*self, o, f0, f1, f2, f3, f4, fields_view(fields@));
        }
        JsonObject { fields }
    }
}

/// The friend adapter's JSON fields are exactly the specified chain, and
/// every toggled-off key is structurally absent.
proof fn lemma_friend_json_fields(
    item: FriendTableItem<'_>,
    o: crate::OutputOptions,
    f0: Seq<(Seq<char>, JsonValV)>,
    f1: Seq<(Seq<char>, JsonValV)>,
    f2: Seq<(Seq<char>, JsonValV)>,
    f3: Seq<(Seq<char>, JsonValV)>,
    f4: Seq<(Seq<char>, JsonValV)>,
    fin: Seq<(Seq<char>, JsonValV)>,
    )
    requires
        f0 =~= seq![("display_name"@, JsonValV::Text(item.friend.display_name@))],
        f1 =~= if o.show_id {
            f0.push(("id"@, JsonValV::Text(item.friend.id@)))
        } else {
            f0
        },
        f2 =~= if o.show_status {
            f1.push(("status"@, JsonValV::Text(status_label(item.friend.status))))
        } else {
            f1
        },
        f3 =~= if o.show_platform {
            f2.push(("platform"@, JsonValV::Text(item.friend.last_platform@)))
        } else {
            f2
        },
        f4 =~= if o.show_location {
            f3.push(("location"@, JsonValV::Text(item.sp_loc_value())))
        } else {
            f3
        },
        fin =~= if o.show_activity {
            match item.friend.last_activity {
                Some(a) => f4.push(("activity"@, JsonValV::Text(a@))),
                None => f4,
            }
        } else {
            f4
        },
    ensures
        fin == item.sp_json_fields(o),
        !o.show_id ==> !obj_has_key(fin, "id"@),
        !o.show_status ==> !obj_has_key(fin, "status"@),
        !o.show_platform ==> !obj_has_key(fin, "platform"@),
        !o.show_location ==> !obj_has_key(fin, "location"@),
        !o.show_activity ==> !obj_has_key(fin, "activity"@) && !obj_has_key(
            fin,
            "last_activity"@,
        ),
{
    assert(fin == item.sp_json_fields(o));
    crate::json::lemma_json_keys_distinct();
    if !o.show_id {
        lemma_friend_chain_key(item, o, f0, f1, f2, f3, f4, fin, "id"@);
    }
    if !o.show_status {
        lemma_friend_chain_key(item, o, f0, f1, f2, f3, f4, fin, "status"@);
    }
    if !o.show_platform {
        lemma_friend_chain_key(item, o, f0, f1, f2, f3, f4, fin, "platform"@);
    }
    if !o.show_location {
        lemma_friend_chain_key(item, o, f0, f1, f2, f3, f4, fin, "location"@);
    }
    if !o.show_activity {
        lemma_friend_chain_key(item, o, f0, f1, f2, f3, f4, fin, "activity"@);
    }
    lemma_friend_chain_key(item, o, f0, f1, f2, f3, f4, fin, "last_activity"@);
}

/// A key that none of the pushes in the friend chain uses (or whose push
/// is switched off) is absent from the final field list.
proof fn lemma_friend_chain_key(
    item: FriendTableItem<'_>,
    o: crate::OutputOptions,
    f0: Seq<(Seq<char>, JsonValV)>,
    f1: Seq<(Seq<char>, JsonValV)>,
    f2: Seq<(Seq<char>, JsonValV)>,
    f3: Seq<(Seq<char>, JsonValV)>,
    f4: Seq<(Seq<char>, JsonValV)>,
    fin: Seq<(Seq<char>, JsonValV)>,
    key: Seq<char>,
)
    requires
        f0 =~= seq![("display_name"@, JsonValV::Text(item.friend.display_name@))],
        f1 =~= if o.show_id {
            f0.push(("id"@, JsonValV::Text(item.friend.id@)))
        } else {
            f0
        },
        f2 =~= if o.show_status {
            f1.push(("status"@, JsonValV::Text(status_label(item.friend.status))))
        } else {
            f1
        },
        f3 =~= if o.show_platform {
            f2.push(("platform"@, JsonValV::Text(item.friend.last_platform@)))
        } else {
            f2
        },
        f4 =~= if o.show_location {
            f3.push(("location"@, JsonValV::Text(item.sp_loc_value())))
        } else {
            f3
        },
        fin =~= if o.show_activity {
            match item.friend.last_activity {
                Some(a) => f4.push(("activity"@, JsonValV::Text(a@))),
                None => f4,
            }
        } else {
            f4
        },
        key != "display_name"@,
        o.show_id ==> key != "id"@,
        o.show_status ==> key != "status"@,
        o.show_platform ==> key != "platform"@,
        o.show_location ==> key != "location"@,
        o.show_activity ==> key != "activity"@,
    ensures
        !obj_has_key(fin, key),
{
    let empty = Seq::<(Seq<char>, JsonValV)>::empty();
    lemma_obj_key_empty(key);
    lemma_obj_key_push(empty, ("display_name"@, JsonValV::Text(item.friend.display_name@)), key);
    assert(f0 =~= empty.push(("display_name"@, JsonValV::Text(item.friend.display_name@))));
    assert(!obj_has_key(f0, key));
    if o.show_id {
        lemma_obj_key_push(f0, ("id"@, JsonValV::Text(item.friend.id@)), key);
    }
    assert(!obj_has_key(f1, key));
    if o.show_status {
        lemma_obj_key_push(f1, ("status"@, JsonValV::Text(status_label(item.friend.status))), key);
    }
    assert(!obj_has_key(f2, key));
    if o.show_platform {
        lemma_obj_key_push(f2, ("platform"@, JsonValV::Text(item.friend.last_platform@)), key);
    }
    assert(!obj_has_key(f3, key));
    if o.show_location {
        lemma_obj_key_push(f3, ("location"@, JsonValV::Text(item.sp_loc_value())), key);
    }
    assert(!obj_has_key(f4, key));
    if o.show_activity {
        match item.friend.last_activity {
            Some(a) => {
                lemma_obj_key_push(f4, ("activity"@, JsonValV::Text(a@)), key);
            },
            None => (),
        }
    }
}

} // verus!


