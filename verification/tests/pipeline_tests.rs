use vrcli::friends::{
    apply_sort_and_limit, sort_friends, Friend, ListFilterOptions, SortMethod,
};
use vrcli::paginate::{dedup_by_id, merge_partitions, Paginator};
use vrcli::users::{sort_users, select_user_match, UserMatch, UserSortMethod, UserTableItem};
use vrcli::utils::UserStatus;

fn friend(name: &str, id: &str) -> Friend {
    Friend {
        id: id.to_string(),
        display_name: name.to_string(),
        status: UserStatus::Active,
        last_platform: "standalonewindows".to_string(),
        location: "private".to_string(),
        status_description: String::new(),
        last_activity: None,
    }
}

fn names(friends: &[Friend]) -> Vec<String> {
    friends.iter().map(|f| f.display_name.clone()).collect()
}

#[test]
fn test_sort_method_parsing() {
    assert!(matches!(SortMethod::from_str("name"), Some(SortMethod::Name)));
    assert!(matches!(SortMethod::from_str("STATUS"), Some(SortMethod::Status)));
    assert!(matches!(SortMethod::from_str("Activity"), Some(SortMethod::Activity)));
    assert!(matches!(SortMethod::from_str("platform"), Some(SortMethod::Platform)));
    assert!(matches!(SortMethod::from_str("id"), Some(SortMethod::Id)));
    assert!(SortMethod::from_str("bogus").is_none());
    let all = SortMethod::all_methods();
    assert_eq!(all, vec!["name", "status", "activity", "platform", "id"]);
}

#[test]
fn test_sort_then_limit_takes_top_of_sorted_order() {
    // the limit cuts the fully sorted list, never the fetch order
    let mut friends = vec![friend("Zed", "u3"), friend("Amy", "u1"), friend("Mia", "u2")];
    let warned = apply_sort_and_limit(&mut friends, "name", false, Some(2));
    assert!(!warned);
    assert_eq!(names(&friends), vec!["Amy", "Mia"]);
}

#[test]
fn test_unknown_sort_falls_back_to_name() {
    let mut a = vec![friend("Zed", "u3"), friend("Amy", "u1"), friend("Mia", "u2")];
    let warned = apply_sort_and_limit(&mut a, "bogus", false, None);
    assert!(warned);
    let mut b = vec![friend("Zed", "u3"), friend("Amy", "u1"), friend("Mia", "u2")];
    let not_warned = apply_sort_and_limit(&mut b, "name", false, None);
    assert!(!not_warned);
    assert_eq!(names(&a), names(&b));
    assert_eq!(names(&a), vec!["Amy", "Mia", "Zed"]);
}

#[test]
fn test_sort_name_is_case_insensitive() {
    let mut friends = vec![friend("beta", "u2"), friend("Alpha", "u1"), friend("GAMMA", "u3")];
    sort_friends(&mut friends, SortMethod::Name, false);
    assert_eq!(names(&friends), vec!["Alpha", "beta", "GAMMA"]);
}

#[test]
fn test_sort_reverse_mirrors_forward_order() {
    let mut fwd = vec![friend("Mia", "u2"), friend("Zed", "u3"), friend("Amy", "u1")];
    let mut rev = vec![friend("Mia", "u2"), friend("Zed", "u3"), friend("Amy", "u1")];
    sort_friends(&mut fwd, SortMethod::Name, false);
    sort_friends(&mut rev, SortMethod::Name, true);
    let mut mirrored = names(&fwd);
    mirrored.reverse();
    assert_eq!(names(&rev), mirrored);
}

#[test]
fn test_sort_by_status_priority_then_name() {
    let mut a = friend("Carl", "u1");
    a.status = UserStatus::Busy;
    let mut b = friend("Ann", "u2");
    b.status = UserStatus::Active;
    let mut c = friend("Bob", "u3");
    c.status = UserStatus::Active;
    let mut friends = vec![a, c, b];
    sort_friends(&mut friends, SortMethod::Status, false);
    assert_eq!(names(&friends), vec!["Ann", "Bob", "Carl"]);
}

#[test]
fn test_sort_by_activity_recent_first_absent_last() {
    let mut a = friend("Old", "u1");
    a.last_activity = Some("2023-01-01T00:00:00Z".to_string());
    let mut b = friend("New", "u2");
    b.last_activity = Some("2024-06-01T00:00:00Z".to_string());
    let c = friend("Never", "u3");
    let mut friends = vec![a, c, b];
    sort_friends(&mut friends, SortMethod::Activity, false);
    assert_eq!(names(&friends), vec!["New", "Old", "Never"]);
}

#[test]
fn test_sort_by_platform_buckets() {
    let mut a = friend("Pat", "u1");
    a.last_platform = "standalonewindows".to_string();
    let mut b = friend("Quinn", "u2");
    b.last_platform = "android".to_string();
    let mut c = friend("Ray", "u3");
    c.last_platform = "weirdos".to_string();
    let mut friends = vec![c, b, a];
    sort_friends(&mut friends, SortMethod::Platform, false);
    assert_eq!(names(&friends), vec!["Pat", "Quinn", "Ray"]);
}

#[test]
fn test_sort_by_id() {
    let mut friends = vec![friend("A", "usr_c"), friend("B", "usr_a"), friend("C", "usr_b")];
    sort_friends(&mut friends, SortMethod::Id, false);
    assert_eq!(names(&friends), vec!["B", "C", "A"]);
}

#[test]
fn test_merge_keeps_each_shared_id_once() {
    let online = vec![friend("Ann-online", "u1"), friend("Bob", "u2")];
    let offline = vec![friend("Ann-offline", "u1"), friend("Cid", "u3")];
    let merged = merge_partitions(online, offline);
    let ids: Vec<String> = merged.iter().map(|f| f.id.clone()).collect();
    assert_eq!(ids, vec!["u1", "u2", "u3"]);
    // the first partition's copy is the one kept
    assert_eq!(merged[0].display_name, "Ann-online");
}

#[test]
fn test_dedup_is_idempotent() {
    let items = vec![friend("A", "x"), friend("B", "x"), friend("C", "y")];
    let once = dedup_by_id(items);
    let names_once: Vec<String> = once.iter().map(|f| f.display_name.clone()).collect();
    let twice = dedup_by_id(once);
    let names_twice: Vec<String> = twice.iter().map(|f| f.display_name.clone()).collect();
    assert_eq!(names_once, names_twice);
    assert_eq!(names_twice, vec!["A", "C"]);
}

#[test]
fn test_paginator_stops_after_short_page() {
    let mut p: Paginator<Friend> = Paginator::new(2, None);
    assert_eq!(p.next_offset(), Some(0));
    assert_eq!(p.next_offset(), Some(2));
    p.record_page(vec![friend("A", "u1"), friend("B", "u2")]);
    // a short page exhausts the paginator: no further offsets at all
    p.record_page(vec![friend("C", "u3")]);
    assert_eq!(p.next_offset(), None);
    p.record_page(Vec::new());
    assert_eq!(p.next_offset(), None);
    let items = p.into_items();
    assert_eq!(items.len(), 3);
    assert_eq!(items[0].id, "u1");
    assert_eq!(items[2].id, "u3");
}

#[test]
fn test_paginator_respects_page_cap() {
    // a limit of 3 with page size 2 over-fetches to three pages, no more
    let mut p: Paginator<Friend> = Paginator::new(2, Some(3));
    let mut offsets = Vec::new();
    while let Some(off) = p.next_offset() {
        offsets.push(off);
    }
    assert_eq!(offsets, vec![0, 2, 4]);
}

#[test]
fn test_paginator_default_cap() {
    let mut p: Paginator<Friend> = Paginator::new(60, None);
    let mut count = 0;
    while p.next_offset().is_some() {
        count += 1;
    }
    assert_eq!(count, 20);
}

#[test]
fn test_list_filter_options_carry_flags() {
    let opts = ListFilterOptions {
        offline: false,
        online: true,
        limit: Some(10),
        sort_method: "status".to_string(),
        reverse: false,
    };
    assert!(opts.online && !opts.offline);
    assert_eq!(opts.limit, Some(10));
}

fn user(name: &str, id: &str, activity: &str, joined: &str) -> UserTableItem {
    UserTableItem {
        id: id.to_string(),
        display_name: name.to_string(),
        username: None,
        bio: "N/A".to_string(),
        status: "Active".to_string(),
        status_enum: UserStatus::Active,
        last_activity: activity.to_string(),
        date_joined: joined.to_string(),
        platform: "standalonewindows".to_string(),
    }
}

#[test]
fn test_sort_users_by_activity_na_last() {
    let a = user("A", "u1", "2024-01-01", "2020-01-01");
    let b = user("B", "u2", "N/A", "2020-01-02");
    let c = user("C", "u3", "2023-01-01", "N/A");
    let mut users = vec![b, a, c];
    sort_users(&mut users, UserSortMethod::LastActivity, false);
    let got: Vec<String> = users.iter().map(|u| u.display_name.clone()).collect();
    assert_eq!(got, vec!["C", "A", "B"]);
}

#[test]
fn test_sort_users_method_parse() {
    assert!(matches!(UserSortMethod::from("joined"), UserSortMethod::DateJoined));
    assert!(matches!(UserSortMethod::from("whatever"), UserSortMethod::Name));
}

#[test]
fn test_select_user_match() {
    let results = vec![
        user("Alpha", "u1", "N/A", "N/A"),
        user("Beta", "u2", "N/A", "N/A"),
    ];
    match select_user_match(&results, "beta") {
        UserMatch::Exact(id) => assert_eq!(id, "u2"),
        _ => panic!("expected an exact match"),
    }
    match select_user_match(&results, "gamma") {
        UserMatch::Suggestions(names) => assert_eq!(names, vec!["Alpha", "Beta"]),
        _ => panic!("expected suggestions"),
    }
    let empty: Vec<UserTableItem> = Vec::new();
    assert!(matches!(select_user_match(&empty, "x"), UserMatch::NoneFound));
}
