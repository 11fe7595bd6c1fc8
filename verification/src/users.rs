//! User records: the display adapter, user sorting, and identifier
//! resolution helpers.

use vstd::prelude::*;
use core::cmp::Ordering;
use crate::json::{
    fields_view, lemma_json_keys_distinct, lemma_obj_key_empty, lemma_obj_key_push, obj_has_key,
    JsonObject, JsonValue, JsonValV,
};
use crate::order::{chars_cmp, flip, lemma_seq_cmp_eq, lemma_seq_cmp_flip, lemma_seq_cmp_trans, seq_cmp};
use crate::strutil::{chars_eq_str, is_prefix_of, lower_of, lower_chars, spec_trim_by, starts_with_lit, trim_chars};
use crate::table::{TableColumnNames, TableDisplayable};
use crate::text::{chars_to_string, to_chars};
use crate::utils::UserStatus;

verus! {

/// Options for a user search.
#[derive(Debug, Clone)]
pub struct UserSearchOptions {
    pub query: String,
    pub limit: i32,
    pub offset: i32,
    pub developer_type: Option<String>,
}

/// One user record, flattened for display.
pub struct UserTableItem {
    pub id: String,
    pub display_name: String,
    pub username: Option<String>,
    pub bio: String,
    pub status: String,
    pub status_enum: UserStatus,
    pub last_activity: String,
    pub date_joined: String,
    pub platform: String,
}

/// Split an identifier: forced ids and `usr_`-prefixed strings are taken
/// as user ids, anything else as a display name still to resolve.
pub fn resolve_user_identifier(identifier: &str, use_id: bool) -> (r: (String, bool))
    ensures
        r.0@ == identifier@,
        r.1 == (use_id || is_prefix_of("usr_"@, identifier@)),
{
    let v = to_chars(identifier);
    if use_id {
        (identifier.to_owned(), true)
    } else if starts_with_lit(&v, "usr_") {
        (identifier.to_owned(), true)
    } else {
        (identifier.to_owned(), false)
    }
}

/// Whether the string has the user-id shape: the `usr_` prefix with
/// something after it.
pub fn is_valid_user_id(user_id: &str) -> (r: bool)
    ensures
        r == (is_prefix_of("usr_"@, user_id@) && user_id@.len() > 4),
{
    let v = to_chars(user_id);
    proof {
        assert("usr_"@.len() == 4) by {
            reveal_strlit("usr_");
        }
    }
    starts_with_lit(&v, "usr_") && v.len() > 4
}

/// A display name cleaned for search: surrounding whitespace stripped.
pub fn sanitize_display_name(name: &str) -> (r: String)
    ensures
        r@ == spec_trim_by(name@, false),
{
    let v = to_chars(name);
    let t = trim_chars(&v);
    chars_to_string(&t)
}

/// The outcome of resolving a display name against search results.
pub enum UserMatch {
    NoneFound,
    Exact(String),
    Suggestions(Vec<String>),
}

/// Whether the result at this index matches the query, comparing display
/// names case-insensitively.
pub open spec fn name_matches(results: Seq<UserTableItem>, q: Seq<char>, i: int) -> bool {
    lower_of(results[i].display_name@) == lower_of(q)
}

/// Select the user a display name resolves to: the first result whose
/// name matches case-insensitively; without one, up to five of the
/// returned names as suggestions; nothing at all when the search came
/// back empty.
pub fn select_user_match(results: &Vec<UserTableItem>, query: &str) -> (r: UserMatch)
    ensures
        match r {
            UserMatch::NoneFound => results@.len() == 0,
            UserMatch::Exact(id) => exists|i: int|
                0 <= i < results@.len() && #[trigger] name_matches(results@, query@, i) && id@
                    == results@[i].id@ && (forall|j: int|
                    0 <= j < i ==> !#[trigger] name_matches(results@, query@, j)),
            UserMatch::Suggestions(names) => results@.len() > 0 && (forall|i: int|
                0 <= i < results@.len() ==> !#[trigger] name_matches(results@, query@, i))
                && names@.len() == vstd::math::min(5, results@.len() as int) && (forall|i: int|
                0 <= i < names@.len() ==> #[trigger] names@[i]@ == results@[i].display_name@),
        },
{
    if results.len() == 0 {
        return UserMatch::NoneFound;
    }
    let lq = lower_chars(query);
    let n = results.len();
    for i in 0..n
        invariant
            n == results@.len(),
            lq@ == lower_of(query@),
            forall|j: int| 0 <= j < i ==> !#[trigger] name_matches(results@, query@, j),
    {
        let ln = lower_chars(results[i].display_name.as_str());
        if crate::strutil::chars_eq(&ln, &lq) {
            proof {
                assert(name_matches(results@, query@, i as int));
            }
            return UserMatch::Exact(results[i].id.clone());
        }
        proof {
            assert(!name_matches(results@, query@, i as int));
        }
    }
    let count = if results.len() < 5 {
        results.len()
    } else {
        5
    };
    let mut names: Vec<String> = Vec::new();
    for i in 0..count
        invariant
            count == vstd::math::min(5, results@.len() as int),
            names@.len() == i,
            forall|j: int| 0 <= j < i ==> #[trigger] names@[j]@ == results@[j].display_name@,
    {
        names.push(results[i].display_name.clone());
    }
    UserMatch::Suggestions(names)
}

/// The sorting keys for user listings.
pub enum UserSortMethod {
    Name,
    Id,
    LastActivity,
    DateJoined,
}

/// The method a lowercased name selects; anything unrecognized falls back
/// to sorting by name.
pub open spec fn spec_user_sort_from(l: Seq<char>) -> UserSortMethod {
    if l == "name"@ {
        UserSortMethod::Name
    } else if l == "id"@ {
        UserSortMethod::Id
    } else if l == "activity"@ {
        UserSortMethod::LastActivity
    } else if l == "joined"@ {
        UserSortMethod::DateJoined
    } else {
        UserSortMethod::Name
    }
}

impl UserSortMethod {
    /// Parse a sort method name, case-insensitively, with the lenient
    /// name fallback.
    pub fn from(s: &str) -> (r: UserSortMethod)
        ensures
            r == spec_user_sort_from(lower_of(s@)),
    {
        let l = lower_chars(s);
        if chars_eq_str(&l, "name") {
            UserSortMethod::Name
        } else if chars_eq_str(&l, "id") {
            UserSortMethod::Id
        } else if chars_eq_str(&l, "activity") {
            UserSortMethod::LastActivity
        } else if chars_eq_str(&l, "joined") {
            UserSortMethod::DateJoined
        } else {
            UserSortMethod::Name
        }
    }
}

/// Compare two optional-style texts where the `N/A` placeholder sorts
/// after every real value.
pub open spec fn na_last_cmp(x: Seq<char>, y: Seq<char>) -> Ordering {
    if x == "N/A"@ && y == "N/A"@ {
        Ordering::Equal
    } else if x == "N/A"@ {
        Ordering::Greater
    } else if y == "N/A"@ {
        Ordering::Less
    } else {
        seq_cmp(x, y)
    }
}

/// Three-way comparison of two users under one method.
pub open spec fn user_cmp(m: UserSortMethod, a: UserTableItem, b: UserTableItem) -> Ordering {
    match m {
        UserSortMethod::Name => seq_cmp(a.display_name@, b.display_name@),
        UserSortMethod::Id => seq_cmp(a.id@, b.id@),
        UserSortMethod::LastActivity => na_last_cmp(a.last_activity@, b.last_activity@),
        UserSortMethod::DateJoined => na_last_cmp(a.date_joined@, b.date_joined@),
    }
}

/// The users' order, with the composed comparison reversed when asked.
pub open spec fn user_le(m: UserSortMethod, rev: bool, a: UserTableItem, b: UserTableItem) -> bool {
    if rev {
        user_cmp(m, a, b) != Ordering::Less
    } else {
        user_cmp(m, a, b) != Ordering::Greater
    }
}

/// Swapping the arguments flips the N/A-aware comparison.
proof fn lemma_na_cmp_flip(x: Seq<char>, y: Seq<char>)
    ensures
        na_last_cmp(y, x) == flip(na_last_cmp(x, y)),
{
    lemma_seq_cmp_flip(x, y);
}

/// The N/A-aware order chains.
proof fn lemma_na_cmp_trans(x: Seq<char>, y: Seq<char>, z: Seq<char>)
    requires
        na_last_cmp(x, y) != Ordering::Greater,
        na_last_cmp(y, z) != Ordering::Greater,
    ensures
        na_last_cmp(x, z) != Ordering::Greater,
{
    if x != "N/A"@ && y != "N/A"@ && z != "N/A"@ {
        lemma_seq_cmp_trans(x, y, z);
    } else {
        lemma_seq_cmp_eq(x, y);
        lemma_seq_cmp_eq(y, z);
        lemma_seq_cmp_eq(x, z);
    }
}

/// Swapping the arguments flips the comparison.
proof fn lemma_user_cmp_flip(m: UserSortMethod, a: UserTableItem, b: UserTableItem)
    ensures
        user_cmp(m, b, a) == flip(user_cmp(m, a, b)),
{
    match m {
        UserSortMethod::Name => lemma_seq_cmp_flip(a.display_name@, b.display_name@),
        UserSortMethod::Id => lemma_seq_cmp_flip(a.id@, b.id@),
        UserSortMethod::LastActivity => lemma_na_cmp_flip(a.last_activity@, b.last_activity@),
        UserSortMethod::DateJoined => lemma_na_cmp_flip(a.date_joined@, b.date_joined@),
    }
}

/// The order is total.
proof fn lemma_user_le_total(m: UserSortMethod, rev: bool, a: UserTableItem, b: UserTableItem)
    ensures
        user_le(m, rev, a, b) || user_le(m, rev, b, a),
{
    lemma_user_cmp_flip(m, a, b);
}

/// The comparison chains.
proof fn lemma_user_cmp_trans(m: UserSortMethod, a: UserTableItem, b: UserTableItem, c: UserTableItem)
    requires
        user_cmp(m, a, b) != Ordering::Greater,
        user_cmp(m, b, c) != Ordering::Greater,
    ensures
        user_cmp(m, a, c) != Ordering::Greater,
{
    match m {
        UserSortMethod::Name => lemma_seq_cmp_trans(a.display_name@, b.display_name@, c.display_name@),
        UserSortMethod::Id => lemma_seq_cmp_trans(a.id@, b.id@, c.id@),
        UserSortMethod::LastActivity => lemma_na_cmp_trans(
            a.last_activity@,
            b.last_activity@,
            c.last_activity@,
        ),
        UserSortMethod::DateJoined => lemma_na_cmp_trans(a.date_joined@, b.date_joined@, c.date_joined@),
    }
}

/// The order is transitive, reversed or not.
proof fn lemma_user_le_trans(
    m: UserSortMethod,
    rev: bool,
    a: UserTableItem,
    b: UserTableItem,
    c: UserTableItem,
)
    requires
        user_le(m, rev, a, b),
        user_le(m, rev, b, c),
    ensures
        user_le(m, rev, a, c),
{
    if rev {
        lemma_user_cmp_flip(m, a, b);
        lemma_user_cmp_flip(m, b, c);
        lemma_user_cmp_flip(m, a, c);
        lemma_user_cmp_trans(m, c, b, a);
    } else {
        lemma_user_cmp_trans(m, a, b, c);
    }
}

/// Three-way comparison of two users, executable.
fn user_cmp_exec(a: &UserTableItem, b: &UserTableItem, method: &UserSortMethod) -> (o: Ordering)
    ensures
        o == user_cmp(*method, *a, *b),
{
    match method {
        UserSortMethod::Name => {
            let ca = to_chars(a.display_name.as_str());
            let cb = to_chars(b.display_name.as_str());
            chars_cmp(&ca, &cb)
        },
        UserSortMethod::Id => {
            let ca = to_chars(a.id.as_str());
            let cb = to_chars(b.id.as_str());
            chars_cmp(&ca, &cb)
        },
        UserSortMethod::LastActivity => na_cmp_exec(
            a.last_activity.as_str(),
            b.last_activity.as_str(),
        ),
        UserSortMethod::DateJoined => na_cmp_exec(a.date_joined.as_str(), b.date_joined.as_str()),
    }
}

/// The N/A-aware comparison, executable.
fn na_cmp_exec(x: &str, y: &str) -> (o: Ordering)
    ensures
        o == na_last_cmp(x@, y@),
{
    let cx = to_chars(x);
    let cy = to_chars(y);
    let x_na = chars_eq_str(&cx, "N/A");
    let y_na = chars_eq_str(&cy, "N/A");
    if x_na && y_na {
        Ordering::Equal
    } else if x_na {
        Ordering::Greater
    } else if y_na {
        Ordering::Less
    } else {
        chars_cmp(&cx, &cy)
    }
}

/// Whether `a` sorts at or before `b`, executable.
fn user_le_exec(a: &UserTableItem, b: &UserTableItem, method: &UserSortMethod, reverse: bool) -> (r:
    bool)
    ensures
        r == user_le(*method, reverse, *a, *b),
{
    let o = user_cmp_exec(a, b, method);
    if reverse {
        !matches!(o, Ordering::Less)
    } else {
        !matches!(o, Ordering::Greater)
    }
}

/// `x` inserted into a sorted run of users.
pub open spec fn user_insert_sorted(
    x: UserTableItem,
    s: Seq<UserTableItem>,
    m: UserSortMethod,
    rev: bool,
) -> Seq<UserTableItem>
    decreases s.len(),
{
    if s.len() == 0 {
        seq![x]
    } else if user_le(m, rev, s[0], x) {
        seq![s[0]] + user_insert_sorted(x, s.drop_first(), m, rev)
    } else {
        seq![x] + s
    }
}

/// Stable insertion sort of the users.
pub open spec fn spec_sort_users(s: Seq<UserTableItem>, m: UserSortMethod, rev: bool) -> Seq<
    UserTableItem,
>
    decreases s.len(),
{
    if s.len() == 0 {
        Seq::<UserTableItem>::empty()
    } else {
        user_insert_sorted(s.last(), spec_sort_users(s.drop_last(), m, rev), m, rev)
    }
}

/// Inserting at the scan position is what `user_insert_sorted` does.
proof fn lemma_user_insert_at(
    x: UserTableItem,
    s: Seq<UserTableItem>,
    j: int,
    m: UserSortMethod,
    rev: bool,
)
    requires
        0 <= j <= s.len(),
        forall|k: int| 0 <= k < j ==> user_le(m, rev, #[trigger] s[k], x),
        j < s.len() ==> !user_le(m, rev, s[j], x),
    ensures
        user_insert_sorted(x, s, m, rev) =~= s.take(j) + seq![x] + s.skip(j),
    decreases j,
{
    if j == 0 {
        if s.len() == 0 {
            assert(user_insert_sorted(x, s, m, rev) =~= s.take(0) + seq![x] + s.skip(0));
        } else {
            assert(user_insert_sorted(x, s, m, rev) =~= s.take(0) + seq![x] + s.skip(0));
        }
    } else {
        assert(user_le(m, rev, s[0], x));
        let rest = s.drop_first();
        assert(forall|k: int| 0 <= k < j - 1 ==> user_le(m, rev, #[trigger] rest[k], x)) by {
            assert(forall|k: int| 0 <= k < j - 1 ==> rest[k] == s[k + 1]);
        }
        assert(j - 1 < rest.len() ==> !user_le(m, rev, rest[j - 1], x));
        lemma_user_insert_at(x, rest, j - 1, m, rev);
        assert(seq![s[0]] + rest.take(j - 1) =~= s.take(j));
        assert(rest.skip(j - 1) =~= s.skip(j));
        assert(user_insert_sorted(x, s, m, rev) =~= s.take(j) + seq![x] + s.skip(j));
    }
}

/// Sort users by the given method, reversing the whole composed
/// comparison when asked to.
pub fn sort_users(users: &mut Vec<UserTableItem>, sort_method: UserSortMethod, reverse: bool)
    ensures
        final(users)@ == spec_sort_users(old(users)@, sort_method, reverse),
{
    let ghost orig = users@;
    let mut out: Vec<UserTableItem> = Vec::new();
    let ghost mut k: int = 0;
    proof {
        assert(orig.take(0) =~= Seq::<UserTableItem>::empty());
        assert(orig.skip(0) =~= orig);
    }
    while users.len() > 0
        invariant
            0 <= k <= orig.len(),
            users@ =~= orig.skip(k),
            out@ == spec_sort_users(orig.take(k), sort_method, reverse),
        decreases users@.len(),
    {
        let x = users.remove(0);
        proof {
            assert(x == orig[k]);
            assert(orig.skip(k).remove(0) =~= orig.skip(k + 1));
        }
        let mut j: usize = 0;
        loop
            invariant
                j <= out@.len(),
                forall|i: int| 0 <= i < j ==> user_le(sort_method, reverse, #[trigger] out@[i], x),
            ensures
                j <= out@.len(),
                forall|i: int| 0 <= i < j ==> user_le(sort_method, reverse, #[trigger] out@[i], x),
                j < out@.len() ==> !user_le(sort_method, reverse, out@[j as int], x),
            decreases out@.len() - j,
        {
            if j >= out.len() {
                break;
            }
            if !user_le_exec(&out[j], &x, &sort_method, reverse) {
                break;
            }
            j = j + 1;
        }
        proof {
            lemma_user_insert_at(x, out@, j as int, sort_method, reverse);
        }
        let ghost out_pre = out@;
        out.insert(j, x);
        proof {
            assert(out@ =~= out_pre.take(j as int) + seq![x] + out_pre.skip(j as int));
            assert(out@ == user_insert_sorted(x, out_pre, sort_method, reverse));
            assert(orig.take(k + 1).drop_last() =~= orig.take(k));
            assert(orig.take(k + 1).last() == orig[k]);
            k = k + 1;
        }
    }
    proof {
        assert(orig.take(orig.len() as int) =~= orig);
    }
    *users = out;
}

impl TableDisplayable for UserTableItem {
    open spec fn sp_name(&self) -> Seq<char> {
        self.display_name@
    }

    open spec fn sp_id(&self) -> Option<Seq<char>> {
        Some(self.id@)
    }

    open spec fn sp_status(&self) -> Option<Seq<char>> {
        Some(self.status@)
    }

    open spec fn sp_platform(&self) -> Option<Seq<char>> {
        Some(self.platform@)
    }

    open spec fn sp_formatted_platform(&self) -> Option<Seq<char>> {
        Some(crate::utils::spec_platform_short(self.platform@))
    }

    open spec fn sp_location(&self) -> Option<Seq<char>> {
        None
    }

    open spec fn sp_formatted_location(&self) -> Option<Seq<char>> {
        None
    }

    open spec fn sp_activity(&self) -> Option<Seq<char>> {
        Some(self.last_activity@)
    }

    open spec fn sp_formatted_activity(&self) -> Option<Seq<char>> {
        None
    }

    open spec fn sp_column_names(&self) -> TableColumnNames {
        TableColumnNames {
            name: "Name",
            id: "ID",
            status: "Status",
            platform: "Platform",
            location: "Location",
            activity: "Activity",
        }
    }

    open spec fn sp_json_fields(&self, o: crate::OutputOptions) -> Seq<(Seq<char>, JsonValV)> {
        let f0 = seq![("display_name"@, JsonValV::Text(self.display_name@))];
        let f1 = if o.show_id {
            f0.push(("id"@, JsonValV::Text(self.id@)))
        } else {
            f0
        };
        let f2 = match self.username {
            Some(u) => f1.push(("username"@, JsonValV::Text(u@))),
            None => f1,
        };
        let f3 = if self.bio@.len() > 0 && self.bio@ != "N/A"@ {
            f2.push(("bio"@, JsonValV::Text(self.bio@)))
        } else {
            f2
        };
        let f4 = if o.show_status {
            f3.push(("status"@, JsonValV::Text(self.status@)))
        } else {
            f3
        };
        let f5 = if o.show_activity {
            f4.push(("last_activity"@, JsonValV::Text(self.last_activity@))).push(
                ("date_joined"@, JsonValV::Text(self.date_joined@)),
            )
        } else {
            f4
        };
        if o.show_platform {
            f5.push(("platform"@, JsonValV::Text(self.platform@)))
        } else {
            f5
        }
    }

    fn display_name(&self) -> (r: &str) {
        self.display_name.as_str()
    }

    fn id(&self) -> (r: Option<&str>) {
        Some(self.id.as_str())
    }

    fn status(&self) -> (r: Option<String>) {
        Some(self.status.clone())
    }

    fn colored_status(&self) -> (r: Option<String>) {
        Some(
            crate::utils::paint(
                self.status.as_str(),
                crate::utils::status_color(&self.status_enum),
            ),
        )
    }

    fn platform(&self) -> (r: Option<&str>) {
        Some(self.platform.as_str())
    }

    fn formatted_platform(&self) -> (r: Option<String>) {
        Some(crate::utils::format_platform_short(self.platform.as_str()))
    }

    fn location(&self) -> (r: Option<&str>) {
        None
    }

    fn formatted_location(&self) -> (r: Option<String>) {
        None
    }

    fn activity(&self) -> (r: Option<&str>) {
        Some(self.last_activity.as_str())
    }

    fn formatted_activity(&self) -> (r: Option<String>) {
        None
    }

    fn column_names(&self) -> (r: TableColumnNames) {
        TableColumnNames {
            name: "Name",
            id: "ID",
            status: "Status",
            platform: "Platform",
            location: "Location",
            activity: "Activity",
        }
    }

    fn to_json_object(&self, options: &crate::OutputOptions) -> (r: JsonObject) {
        let o = *options;
        let mut fields: Vec<(String, JsonValue)> = Vec::new();
        fields.push(("display_name".to_owned(), JsonValue::Text(self.display_name.clone())));
        let ghost f0 = fields_view(fields@);
        if o.show_id {
            fields.push(("id".to_owned(), JsonValue::Text(self.id.clone())));
        }
        let ghost f1 = fields_view(fields@);
        match &self.username {
            Some(u) => {
                fields.push(("username".to_owned(), JsonValue::Text(u.clone())));
            },
            None => (),
        }
        let ghost f2 = fields_view(fields@);
        let bv = to_chars(self.bio.as_str());
        if !self.bio.as_str().is_empty() && !chars_eq_str(&bv, "N/A") {
            fields.push(("bio".to_owned(), JsonValue::Text(self.bio.clone())));
        }
        let ghost f3 = fields_view(fields@);
        if o.show_status {
            fields.push(("status".to_owned(), JsonValue::Text(self.status.clone())));
        }
        let ghost f4 = fields_view(fields@);
        if o.show_activity {
            fields.push(("last_activity".to_owned(), JsonValue::Text(self.last_activity.clone())));
            fields.push(("date_joined".to_owned(), JsonValue::Text(self.date_joined.clone())));
        }
        let ghost f5 = fields_view(fields@);
        if o.show_platform {
            fields.push(("platform".to_owned(), JsonValue::Text(self.platform.clone())));
        }
        proof {
            lemma_user_json_fields(*self, o, f0, f1, f2, f3, f4, f5, fields_view(fields@));
        }
        JsonObject { fields }
    }
}

/// The user adapter's JSON fields are exactly the specified chain, and
/// every toggled-off key is structurally absent.
proof fn lemma_user_json_fields(
    item: UserTableItem,
    o: crate::OutputOptions,
    f0: Seq<(Seq<char>, JsonValV)>,
    f1: Seq<(Seq<char>, JsonValV)>,
    f2: Seq<(Seq<char>, JsonValV)>,
    f3: Seq<(Seq<char>, JsonValV)>,
    f4: Seq<(Seq<char>, JsonValV)>,
    f5: Seq<(Seq<char>, JsonValV)>,
    fin: Seq<(Seq<char>, JsonValV)>,
)
    requires
        f0 =~= seq![("display_name"@, JsonValV::Text(item.display_name@))],
        f1 =~= if o.show_id {
            f0.push(("id"@, JsonValV::Text(item.id@)))
        } else {
            f0
        },
        f2 =~= match item.username {
            Some(u) => f1.push(("username"@, JsonValV::Text(u@))),
            None => f1,
        },
        f3 =~= if item.bio@.len() > 0 && item.bio@ != "N/A"@ {
            f2.push(("bio"@, JsonValV::Text(item.bio@)))
        } else {
            f2
        },
        f4 =~= if o.show_status {
            f3.push(("status"@, JsonValV::Text(item.status@)))
        } else {
            f3
        },
        f5 =~= if o.show_activity {
            f4.push(("last_activity"@, JsonValV::Text(item.last_activity@))).push(
                ("date_joined"@, JsonValV::Text(item.date_joined@)),
            )
        } else {
            f4
        },
        fin =~= if o.show_platform {
            f5.push(("platform"@, JsonValV::Text(item.platform@)))
        } else {
            f5
        },
    ensures
        fin == item.sp_json_fields(o),
        !o.show_id ==> !obj_has_key(fin, "id"@),
        !o.show_status ==> !obj_has_key(fin, "status"@),
        !o.show_platform ==> !obj_has_key(fin, "platform"@),
        !o.show_location ==> !obj_has_key(fin, "location"@),
        !o.show_activity ==> !obj_has_key(fin, "activity"@) && !obj_has_key(
            fin,
            "last_activity"@,
        ),
{
    assert(fin == item.sp_json_fields(o));
    lemma_json_keys_distinct();
    if !o.show_id {
        lemma_user_chain_key(item, o, f0, f1, f2, f3, f4, f5, fin, "id"@);
    }
    if !o.show_status {
        lemma_user_chain_key(item, o, f0, f1, f2, f3, f4, f5, fin, "status"@);
    }
    if !o.show_platform {
        lemma_user_chain_key(item, o, f0, f1, f2, f3, f4, f5, fin, "platform"@);
    }
    lemma_user_chain_key(item, o, f0, f1, f2, f3, f4, f5, fin, "location"@);
    lemma_user_chain_key(item, o, f0, f1, f2, f3, f4, f5, fin, "activity"@);
    if !o.show_activity {
        lemma_user_chain_key(item, o, f0, f1, f2, f3, f4, f5, fin, "last_activity"@);
    }
}

/// A key that none of the pushes in the user chain uses (or whose push is
/// switched off) is absent from the final field list.
proof fn lemma_user_chain_key(
    item: UserTableItem,
    o: crate::OutputOptions,
    f0: Seq<(Seq<char>, JsonValV)>,
    f1: Seq<(Seq<char>, JsonValV)>,
    f2: Seq<(Seq<char>, JsonValV)>,
    f3: Seq<(Seq<char>, JsonValV)>,
    f4: Seq<(Seq<char>, JsonValV)>,
    f5: Seq<(Seq<char>, JsonValV)>,
    fin: Seq<(Seq<char>, JsonValV)>,
    key: Seq<char>,
)
    requires
        f0 =~= seq![("display_name"@, JsonValV::Text(item.display_name@))],
        f1 =~= if o.show_id {
            f0.push(("id"@, JsonValV::Text(item.id@)))
        } else {
            f0
        },
        f2 =~= match item.username {
            Some(u) => f1.push(("username"@, JsonValV::Text(u@))),
            None => f1,
        },
        f3 =~= if item.bio@.len() > 0 && item.bio@ != "N/A"@ {
            f2.push(("bio"@, JsonValV::Text(item.bio@)))
        } else {
            f2
        },
        f4 =~= if o.show_status {
            f3.push(("status"@, JsonValV::Text(item.status@)))
        } else {
            f3
        },
        f5 =~= if o.show_activity {
            f4.push(("last_activity"@, JsonValV::Text(item.last_activity@))).push(
                ("date_joined"@, JsonValV::Text(item.date_joined@)),
            )
        } else {
            f4
        },
        fin =~= if o.show_platform {
            f5.push(("platform"@, JsonValV::Text(item.platform@)))
        } else {
            f5
        },
        key != "display_name"@,
        key != "username"@,
        key != "bio"@,
        key != "date_joined"@,
        o.show_id ==> key != "id"@,
        o.show_status ==> key != "status"@,
        o.show_platform ==> key != "platform"@,
        o.show_activity ==> key != "last_activity"@,
    ensures
        !obj_has_key(fin, key),
{
    let empty = Seq::<(Seq<char>, JsonValV)>::empty();
    lemma_obj_key_empty(key);
    lemma_obj_key_push(empty, ("display_name"@, JsonValV::Text(item.display_name@)), key);
    assert(f0 =~= empty.push(("display_name"@, JsonValV::Text(item.display_name@))));
    assert(!obj_has_key(f0, key));
    if o.show_id {
        lemma_obj_key_push(f0, ("id"@, JsonValV::Text(item.id@)), key);
    }
    assert(!obj_has_key(f1, key));
    match item.username {
        Some(u) => {
            lemma_obj_key_push(f1, ("username"@, JsonValV::Text(u@)), key);
        },
        None => (),
    }
    assert(!obj_has_key(f2, key));
    if item.bio@.len() > 0 && item.bio@ != "N/A"@ {
        lemma_obj_key_push(f2, ("bio"@, JsonValV::Text(item.bio@)), key);
    }
    assert(!obj_has_key(f3, key));
    if o.show_status {
        lemma_obj_key_push(f3, ("status"@, JsonValV::Text(item.status@)), key);
    }
    assert(!obj_has_key(f4, key));
    if o.show_activity {
        lemma_obj_key_push(f4, ("last_activity"@, JsonValV::Text(item.last_activity@)), key);
        lemma_obj_key_push(
            f4.push(("last_activity"@, JsonValV::Text(item.last_activity@))),
            ("date_joined"@, JsonValV::Text(item.date_joined@)),
            key,
        );
    }
    assert(!obj_has_key(f5, key));
    if o.show_platform {
        lemma_obj_key_push(f5, ("platform"@, JsonValV::Text(item.platform@)), key);
    }
}

} // verus!
