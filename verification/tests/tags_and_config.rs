use vrcli::config::{AuthMethod, Config};
use vrcli::world_tags::{format_single_tag, format_world_tags};

#[test]
fn test_format_author_tags() {
    assert_eq!(format_single_tag("author_tag_game"), "\u{1f4dd} Game");
    assert_eq!(format_single_tag("author_tag_murder"), "\u{1f4dd} Murder Mystery");
    assert_eq!(format_single_tag("author_tag_udon"), "\u{1f4dd} Udon Scripting");
}

#[test]
fn test_format_system_tags() {
    assert_eq!(format_single_tag("system_approved"), "\u{2705} System Approved");
    assert_eq!(format_single_tag("admin_approved"), "\u{1f477} Admin Approved");
}

#[test]
fn test_format_feature_tags() {
    assert_eq!(format_single_tag("feature_drones_disabled"), "\u{2699}\u{fe0f} No Drones");
    assert_eq!(format_single_tag("feature_mirror_disabled"), "\u{2699}\u{fe0f} No Mirrors");
}

#[test]
fn test_format_admin_tags() {
    assert_eq!(
        format_single_tag("admin_vrrat_community_takeover"),
        "\u{1f477} VRRat Community Takeover"
    );
    assert_eq!(format_single_tag("admin_staff_pick"), "\u{1f477} Staff Pick");
    assert_eq!(format_single_tag("admin_verified_creator"), "\u{1f477} Verified Creator");
}

#[test]
fn test_format_multiple_tags() {
    let tags = vec![
        "author_tag_game".to_string(),
        "admin_approved".to_string(),
        "feature_drones_disabled".to_string(),
    ];
    let result = format_world_tags(&tags);
    assert_eq!(
        result,
        "\u{1f4dd} Game, \u{1f477} Admin Approved, \u{2699}\u{fe0f} No Drones"
    );
}

#[test]
fn test_empty_tags() {
    let tags: Vec<String> = Vec::new();
    assert_eq!(format_world_tags(&tags), "None");
}

#[test]
fn test_language_tags_uppercase_fallback() {
    assert_eq!(format_single_tag("lang_eng"), "\u{1f310} English");
    assert_eq!(format_single_tag("lang_xyz"), "\u{1f310} XYZ");
}

#[test]
fn test_unmapped_tag_passes_through() {
    assert_eq!(format_single_tag("somethingelse"), "somethingelse");
    assert_eq!(format_single_tag("content_horror"), "\u{26a0}\u{fe0f} Horror");
}

#[test]
fn test_config_new_password() {
    let config = Config::new_password("testuser".to_string(), "testpass".to_string());

    match config.auth_method {
        AuthMethod::Password { username, password } => {
            assert_eq!(username, "testuser");
            assert_eq!(password, "testpass");
        }
        _ => panic!("Expected Password auth method"),
    }
}

#[test]
fn test_config_new_cookie() {
    let config = Config::new_cookie(
        "auth_cookie_value".to_string(),
        Some("2fa_cookie_value".to_string()),
    );

    match config.auth_method {
        AuthMethod::Cookie { auth_cookie, two_fa_cookie } => {
            assert_eq!(auth_cookie, "auth_cookie_value");
            assert_eq!(two_fa_cookie, Some("2fa_cookie_value".to_string()));
        }
        _ => panic!("Expected Cookie auth method"),
    }
}

#[test]
fn test_config_new_cookie_without_2fa() {
    let config = Config::new_cookie("auth_cookie_value".to_string(), None);

    match config.auth_method {
        AuthMethod::Cookie { auth_cookie, two_fa_cookie } => {
            assert_eq!(auth_cookie, "auth_cookie_value");
            assert_eq!(two_fa_cookie, None);
        }
        _ => panic!("Expected Cookie auth method"),
    }
}

#[test]
fn test_validate_auth_cookie() {
    assert!(vrcli::auth_utils::validate_auth_cookie("authcookie_1234567890").is_ok());
    let err = vrcli::auth_utils::validate_auth_cookie("cookie_123").unwrap_err();
    assert_eq!(err, "Invalid auth cookie format: must start with 'authcookie_'");
    assert!(vrcli::auth_utils::cookie_seems_short("authcookie_x"));
    assert!(!vrcli::auth_utils::cookie_seems_short("authcookie_123456789"));
}

#[test]
fn test_normalize_cookie_value() {
    assert_eq!(vrcli::auth_utils::normalize_cookie_value("  \"authcookie_abc\"  "), "authcookie_abc");
    assert_eq!(vrcli::auth_utils::normalize_cookie_value("plain"), "plain");
}
