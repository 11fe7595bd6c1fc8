use vrcli::command_utils::{display_results, handle_empty_results};
use vrcli::display_options::DisplayOptions;
use vrcli::formatter::GenericFormatter;
use vrcli::friends::{Friend, FriendTableItem};
use vrcli::output_options::OutputOptions;
use vrcli::table::{format_colored_text_with_width, ColumnWidths};
use vrcli::utils::UserStatus;
use vrcli::world::{DummyWorld, WorldTableItem};
use vrcli::worlds::WorldTableItem as OwnedWorldItem;

fn friend(name: &str, id: &str) -> Friend {
    Friend {
        id: id.to_string(),
        display_name: name.to_string(),
        status: UserStatus::Active,
        last_platform: "standalonewindows".to_string(),
        location: String::new(),
        status_description: String::new(),
        last_activity: None,
    }
}

fn opts_none() -> OutputOptions {
    OutputOptions {
        json: false,
        long_format: false,
        show_id: false,
        show_status: false,
        show_platform: false,
        show_location: false,
        show_activity: false,
    }
}

#[test]
fn test_format_empty_items_json() {
    let items: Vec<FriendTableItem> = Vec::new();
    let mut options = opts_none();
    options.json = true;
    let out = GenericFormatter::format(&items, &options);
    assert_eq!(out, "[]\n");
}

#[test]
fn test_format_empty_items_table() {
    let items: Vec<FriendTableItem> = Vec::new();
    let options = opts_none();
    let out = GenericFormatter::format(&items, &options);
    assert_eq!(out, "No items found.\n");
}

#[test]
fn test_format_json_items() {
    let w1 = DummyWorld {
        id: "wrld_1".to_string(),
        name: "test1".to_string(),
        author_name: "value1".to_string(),
        capacity: 8,
        tags: Vec::new(),
    };
    let w2 = DummyWorld {
        id: "wrld_2".to_string(),
        name: "test2".to_string(),
        author_name: "value2".to_string(),
        capacity: 8,
        tags: Vec::new(),
    };
    let items = vec![WorldTableItem::new(&w1), WorldTableItem::new(&w2)];
    let mut options = opts_none();
    options.json = true;
    options.show_status = true;
    let out = GenericFormatter::format_json(&items, &options);
    assert!(out.starts_with("[\n"));
    assert!(out.contains("\"display_name\": \"test1\""));
    assert!(out.contains("\"status\": \"value1\""));
    assert!(out.contains("\"display_name\": \"test2\""));
    assert!(out.contains("\"status\": \"value2\""));
}

#[test]
fn test_format_simple_list() {
    let friends = vec![friend("test1", "u1"), friend("test2", "u2")];
    let items: Vec<FriendTableItem> = friends.iter().map(FriendTableItem::new).collect();
    let out = GenericFormatter::format_simple_list(&items);
    assert_eq!(out, "test1\ntest2\n");
}

#[test]
fn test_format_table() {
    let friends = vec![friend("test1", "u1")];
    let items: Vec<FriendTableItem> = friends.iter().map(FriendTableItem::new).collect();
    let mut options = opts_none();
    options.long_format = true;
    let out = GenericFormatter::format_table(&items, &options);
    assert_eq!(out, "Name   \ntest1  \n");
}

#[test]
fn test_simple_list_skips_empty_names() {
    let friends = vec![friend("", "u1"), friend("Visible", "u2")];
    let items: Vec<FriendTableItem> = friends.iter().map(FriendTableItem::new).collect();
    let out = GenericFormatter::format_simple_list(&items);
    assert_eq!(out, "Visible\n");
}

#[test]
fn test_table_alignment_exact() {
    let friends = vec![friend("Alice", "usr_1"), friend("Bo", "u2")];
    let items: Vec<FriendTableItem> = friends.iter().map(FriendTableItem::new).collect();
    let mut options = opts_none();
    options.show_id = true;
    let out = GenericFormatter::format(&items, &options);
    assert_eq!(out, "Name   ID     \nAlice  usr_1  \nBo     u2     \n");
}

#[test]
fn test_table_truncates_and_pads_to_column_width() {
    let friends = vec![
        friend("a-very-long-display-name-that-overflows-the-column", "u1"),
        friend("tiny", "u2"),
    ];
    let items: Vec<FriendTableItem> = friends.iter().map(FriendTableItem::new).collect();
    let mut options = opts_none();
    options.show_id = true;
    let out = GenericFormatter::format(&items, &options);
    let lines: Vec<&str> = out.lines().collect();
    assert_eq!(lines.len(), 3);
    // the name column is clamped at 30 columns; every row is as wide as the header
    assert!(lines[1].starts_with("a-very-long-display-name-th..."));
    assert_eq!(lines[1].chars().count(), lines[0].chars().count());
    assert_eq!(lines[2].chars().count(), lines[0].chars().count());
}

#[test]
fn test_table_wide_characters_count_double() {
    let friends = vec![friend("\u{3053}\u{3093}\u{306b}\u{3061}\u{306f}", "u1"), friend("abc", "u2")];
    let items: Vec<FriendTableItem> = friends.iter().map(FriendTableItem::new).collect();
    let mut options = opts_none();
    options.show_id = true;
    let out = GenericFormatter::format(&items, &options);
    let lines: Vec<&str> = out.lines().collect();
    // five wide characters measure ten columns, so the name column is 12 wide
    assert_eq!(lines[0], "Name        ID  ");
    assert_eq!(lines[1], "\u{3053}\u{3093}\u{306b}\u{3061}\u{306f}  u1  ");
}

#[test]
fn test_json_field_omission() {
    let friends = vec![friend("Alice", "usr_1")];
    let items: Vec<FriendTableItem> = friends.iter().map(FriendTableItem::new).collect();
    let mut options = opts_none();
    options.json = true;
    options.show_id = true;
    let without_status = GenericFormatter::format(&items, &options);
    assert!(!without_status.contains("\"status\""));
    options.show_status = true;
    let with_status = GenericFormatter::format(&items, &options);
    assert!(with_status.contains("\"status\": \"Active\""));
}

#[test]
fn test_json_exact_document() {
    let friends = vec![friend("Alice", "usr_1")];
    let items: Vec<FriendTableItem> = friends.iter().map(FriendTableItem::new).collect();
    let mut options = opts_none();
    options.json = true;
    let out = GenericFormatter::format(&items, &options);
    assert_eq!(out, "[\n  {\n    \"display_name\": \"Alice\"\n  }\n]\n");
}

#[test]
fn test_json_escapes_quotes_and_newlines() {
    let friends = vec![friend("A\"B\nC", "u1")];
    let items: Vec<FriendTableItem> = friends.iter().map(FriendTableItem::new).collect();
    let mut options = opts_none();
    options.json = true;
    let out = GenericFormatter::format(&items, &options);
    assert!(out.contains("\"display_name\": \"A\\\"B\\nC\""));
}

#[test]
fn test_world_json_numbers_and_tags() {
    let world = OwnedWorldItem {
        id: "wrld_9".to_string(),
        name: "W".to_string(),
        author_id: "usr_a".to_string(),
        author_name: "Auth".to_string(),
        capacity: 16,
        description: "d".to_string(),
        tags: vec!["a".to_string(), "b".to_string()],
        visits: -1,
        visits_available: false,
        favorites: 0,
        created_at: "t0".to_string(),
        updated_at: "t1".to_string(),
    };
    let items = vec![world];
    let mut options = opts_none();
    options.json = true;
    options.show_location = true;
    let out = GenericFormatter::format(&items, &options);
    assert_eq!(
        out,
        "[\n  {\n    \"name\": \"W\",\n    \"author_name\": \"Auth\",\n    \"capacity\": 16,\n    \"tags\": [\n      \"a\",\n      \"b\"\n    ]\n  }\n]\n"
    );
}

#[test]
fn test_world_table_relabels_columns() {
    let world = OwnedWorldItem {
        id: "wrld_9".to_string(),
        name: "W".to_string(),
        author_id: "usr_a".to_string(),
        author_name: "Auth".to_string(),
        capacity: 16,
        description: "d".to_string(),
        tags: vec!["game".to_string()],
        visits: 7,
        visits_available: true,
        favorites: 0,
        created_at: "t0".to_string(),
        updated_at: "t1".to_string(),
    };
    let items = vec![world];
    let mut options = opts_none();
    options.show_status = true;
    options.show_platform = true;
    options.show_activity = true;
    let out = GenericFormatter::format(&items, &options);
    let lines: Vec<&str> = out.lines().collect();
    assert!(lines[0].starts_with("Name"));
    assert!(lines[0].contains("Author"));
    assert!(lines[0].contains("Capacity"));
    assert!(lines[0].contains("Visits"));
    assert!(lines[1].contains("16"));
    assert!(lines[1].contains("7"));
}

#[test]
fn test_colored_cell_padding_uses_plain_width() {
    let padded = format_colored_text_with_width("abc", "abc", 6);
    assert_eq!(padded, "abc   ");
    let with_codes = format_colored_text_with_width("\u{1b}[32mok\u{1b}[0m", "ok", 5);
    assert_eq!(with_codes, "\u{1b}[32mok\u{1b}[0m   ");
}

#[test]
fn test_colored_cell_truncates_overwide_plain_text() {
    // plain text wider than the column renders plain and keeps the width
    let cell = format_colored_text_with_width("averylongauthorname", "averylongauthorname", 8);
    assert_eq!(cell, "avery...");
    assert_eq!(cell.chars().count(), 8);
}

#[test]
fn test_world_table_long_author_keeps_status_width() {
    let world = OwnedWorldItem {
        id: "wrld_9".to_string(),
        name: "W".to_string(),
        author_id: "usr_a".to_string(),
        author_name: "AnAuthorNameWellBeyondTheColumnCap".to_string(),
        capacity: 16,
        description: "d".to_string(),
        tags: Vec::new(),
        visits: 7,
        visits_available: true,
        favorites: 0,
        created_at: "t0".to_string(),
        updated_at: "t1".to_string(),
    };
    let items = vec![world];
    let mut options = opts_none();
    options.show_id = true;
    options.show_status = true;
    let out = GenericFormatter::format(&items, &options);
    let lines: Vec<&str> = out.lines().collect();
    // the author column is clamped at fifteen columns; the row is exactly
    // as wide as the header, with the over-wide author name truncated
    assert_eq!(lines[1].chars().count(), lines[0].chars().count());
    assert!(lines[1].contains("AnAuthorName..."));
}

#[test]
fn test_column_widths_from_data() {
    let friends = vec![friend("Alice", "usr_12345")];
    let items: Vec<FriendTableItem> = friends.iter().map(FriendTableItem::new).collect();
    let w = ColumnWidths::calculate_from_data(&items);
    assert_eq!(w.name, 7);
    assert_eq!(w.id, 11);
    assert_eq!(w.status, 8);
    // "PC" is narrower than the Platform header's base of eight columns
    assert_eq!(w.platform, 10);
    // the empty location is normalized to the `private` sentinel
    assert_eq!(w.location, 10);
}

#[test]
fn test_display_results_and_empty_handler() {
    let empty: Vec<FriendTableItem> = Vec::new();
    let json_opts = DisplayOptions::json();
    assert_eq!(display_results(&empty, &json_opts, "No friends found."), "[]\n");
    let plain_opts = DisplayOptions::minimal();
    assert_eq!(
        display_results(&empty, &plain_opts, "No friends found."),
        "No friends found.\n"
    );
    assert_eq!(handle_empty_results(&plain_opts, "Nothing here."), "Nothing here.\n");
    let friends = vec![friend("Zoe", "u1")];
    let items: Vec<FriendTableItem> = friends.iter().map(FriendTableItem::new).collect();
    assert_eq!(display_results(&items, &plain_opts, "No friends found."), "Zoe\n");
}

#[test]
fn test_display_options_shapes() {
    let d = DisplayOptions::detailed();
    assert!(d.long_format && d.show_id && d.show_status && !d.json);
    let o = d.to_output_options();
    assert!(o.long_format && o.show_id && o.show_status && !o.json);
    let f = DisplayOptions::from_flags(false, true, false, true, false, true, false);
    assert!(f.show_id && f.show_platform && f.show_activity);
    assert!(!f.show_status && !f.show_location && !f.json && !f.long_format);
    let m = OutputOptions::minimal();
    assert!(!m.show_id && !m.json);
    let dd = OutputOptions::detailed();
    assert!(dd.long_format && dd.show_id);
    let j = OutputOptions::json();
    assert!(j.json && j.show_id);
}

#[test]
fn test_format_activity_time() {
    assert_eq!(
        vrcli::friends::format_activity_time(&Some("2024-01-01T10:00:00Z".to_string())),
        "2024-01-01T10:00:00Z"
    );
    assert_eq!(vrcli::friends::format_activity_time(&None), "-");
}
