use vrcli::text::format_text_with_width;
use vrcli::utils::{format_platform_short, format_user_status, is_valid_user_id, UserStatus};

#[test]
fn test_format_user_status_without_color() {
    assert_eq!(format_user_status(&UserStatus::Active, false), "Active");
    assert_eq!(format_user_status(&UserStatus::JoinMe, false), "Join me");
    assert_eq!(format_user_status(&UserStatus::AskMe, false), "Ask me");
    assert_eq!(format_user_status(&UserStatus::Busy, false), "Busy");
    assert_eq!(format_user_status(&UserStatus::Offline, false), "Offline");
}

#[test]
fn test_format_user_status_with_color() {
    let active_colored = format_user_status(&UserStatus::Active, true);
    assert!(active_colored.contains("Active"));

    let busy_colored = format_user_status(&UserStatus::Busy, true);
    assert!(busy_colored.contains("Busy"));
}

#[test]
fn test_format_platform_short() {
    assert_eq!(format_platform_short("standalonewindows"), "PC");
    assert_eq!(format_platform_short("android"), "Quest");
    assert_eq!(format_platform_short("quest"), "Quest");
    assert_eq!(format_platform_short("ios"), "iOS");
    assert_eq!(format_platform_short("steamvr"), "SteamVR");
    assert_eq!(format_platform_short("oculuspc"), "Oculus");
    assert_eq!(format_platform_short("unknownplatform"), "Unknown");
    assert_eq!(format_platform_short(""), "Unknown");
}

#[test]
fn test_format_platform_unity_versions() {
    assert_eq!(format_platform_short("2019.4.31f1"), "Unity2019");
    assert_eq!(format_platform_short("2022.3.22f1"), "Unity2022");
    assert_eq!(format_platform_short("2024.1.0f1"), "Unity2024");
}

#[test]
fn test_format_platform_long_strings() {
    assert_eq!(format_platform_short("verylongplatformname"), "veryl...");
    assert_eq!(format_platform_short("12345678"), "12345678");
    assert_eq!(format_platform_short("123456789"), "12345...");
}

#[test]
fn test_format_text_with_width_exact_fit() {
    assert_eq!(format_text_with_width("hello", 5), "hello");
}

#[test]
fn test_format_text_with_width_padding() {
    assert_eq!(format_text_with_width("hi", 5), "hi   ");
}

#[test]
fn test_format_text_with_width_truncation() {
    assert_eq!(format_text_with_width("hello world", 8), "hello...");
    assert_eq!(format_text_with_width("test", 8), "test    ");
}

#[test]
fn test_format_text_with_width_unicode() {
    assert_eq!(format_text_with_width("\u{3053}\u{3093}\u{306b}\u{3061}\u{306f}", 6), "\u{3053}... ");
}

#[test]
fn test_is_valid_user_id_modern_format() {
    assert!(is_valid_user_id("usr_12345678-1234-1234-1234-123456789012"));
    assert!(is_valid_user_id("usr_abcdef12-3456-7890-abcd-ef1234567890"));
    assert!(!is_valid_user_id("usr_short"));
    assert!(!is_valid_user_id("usr_"));
}

#[test]
fn test_is_valid_user_id_legacy_format() {
    assert!(is_valid_user_id("Abc123Xy"));
    assert!(is_valid_user_id("Test1234"));
    assert!(!is_valid_user_id("Nekomasu"));
    assert!(!is_valid_user_id("12345678"));
    assert!(!is_valid_user_id("testname"));
}

#[test]
fn test_is_valid_user_id_invalid_formats() {
    assert!(!is_valid_user_id(""));
    assert!(!is_valid_user_id("invalid"));
    assert!(!is_valid_user_id("toolong123456789"));
    assert!(!is_valid_user_id("short"));
    assert!(!is_valid_user_id("special@chars"));
}

#[test]
fn test_loose_id_checks() {
    assert!(vrcli::friends::is_valid_user_id("usr_anything"));
    assert!(vrcli::friends::is_valid_user_id("abcd1234"));
    assert!(!vrcli::friends::is_valid_user_id("short"));
    assert!(vrcli::users::is_valid_user_id("usr_x"));
    assert!(!vrcli::users::is_valid_user_id("usr_"));
    assert!(!vrcli::users::is_valid_user_id("someone"));
}

#[test]
fn test_sanitize_display_name() {
    assert_eq!(vrcli::users::sanitize_display_name("  Tilde  "), "Tilde");
    assert_eq!(vrcli::users::sanitize_display_name("plain"), "plain");
}

#[test]
fn test_resolve_user_identifier_shapes() {
    let (v, is_id) = vrcli::users::resolve_user_identifier("usr_abc", false);
    assert_eq!(v, "usr_abc");
    assert!(is_id);
    let (v, is_id) = vrcli::users::resolve_user_identifier("SomeName", false);
    assert_eq!(v, "SomeName");
    assert!(!is_id);
    let (_, is_id) = vrcli::users::resolve_user_identifier("SomeName", true);
    assert!(is_id);
}

#[test]
fn test_user_identifier() {
    let id = vrcli::command_utils::UserIdentifier::new("Abc123Xy".to_string(), false);
    assert!(id.is_user_id());
    let name = vrcli::command_utils::UserIdentifier::new("Nekomasu".to_string(), false);
    assert!(!name.is_user_id());
    let forced = vrcli::command_utils::UserIdentifier::new("Nekomasu".to_string(), true);
    assert!(forced.is_user_id());
}
