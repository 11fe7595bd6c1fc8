//! Presentation helpers shared by every collection type: status labels and
//! colours, short platform names, and user-id validation.

use vstd::prelude::*;
use crate::strutil::{
    chars_eq_str, contains_seq, esc_free, is_prefix_of, lemma_contains_self, starts_with_lit,
};
use crate::text::{chars_to_string, to_chars};

verus! {

/// Presence status of a user, from the service's closed vocabulary.
#[derive(Debug, Clone, Copy, PartialEq, Eq, Structural)]
pub enum UserStatus {
    Active,
    JoinMe,
    AskMe,
    Busy,
    Offline,
}

/// Terminal colours used for status display.
#[derive(Debug, Clone, Copy)]
pub enum TermColor {
    Green,
    Cyan,
    Yellow,
    Red,
    BrightBlack,
}

/// The human-readable label of a status.
pub open spec fn status_label(s: UserStatus) -> Seq<char> {
    match s {
        UserStatus::Active => "Active"@,
        UserStatus::JoinMe => "Join me"@,
        UserStatus::AskMe => "Ask me"@,
        UserStatus::Busy => "Busy"@,
        UserStatus::Offline => "Offline"@,
    }
}

/// Relies on colored's Colorize::color and Display for ColoredString.
/// Whether escape codes are added depends on the environment (TTY
/// detection, NO_COLOR), so the result is pinned down only this far: with
/// colours off the input is returned unchanged, and with colours on the
/// output is style codes, the input (rewritten only at inner reset
/// sequences, which an escape-free input cannot hold), and a reset — so an
/// escape-free input occurs in the output either way.
#[verifier::external_body]
pub(crate) fn paint(text: &str, color: TermColor) -> (r: String)
    ensures
        esc_free(text@) ==> contains_seq(r@, text@),
{
    let c = match color {
        TermColor::Green => colored::Color::Green,
        TermColor::Cyan => colored::Color::Cyan,
        TermColor::Yellow => colored::Color::Yellow,
        TermColor::Red => colored::Color::Red,
        TermColor::BrightBlack => colored::Color::BrightBlack,
    };
    colored::Colorize::color(text, c).to_string()
}

/// The colour a status is shown in.
pub fn status_color(status: &UserStatus) -> TermColor {
    match status {
        UserStatus::Active => TermColor::Green,
        UserStatus::JoinMe => TermColor::Cyan,
        UserStatus::AskMe => TermColor::Yellow,
        UserStatus::Busy => TermColor::Red,
        UserStatus::Offline => TermColor::BrightBlack,
    }
}

/// The status labels hold no terminal escape character.
proof fn lemma_status_labels_esc_free(s: UserStatus)
    ensures
        esc_free(status_label(s)),
{
    assert("Active"@ =~= seq!['A', 'c', 't', 'i', 'v', 'e']) by {
        reveal_strlit("Active");
    }
    assert("Join me"@ =~= seq!['J', 'o', 'i', 'n', ' ', 'm', 'e']) by {
        reveal_strlit("Join me");
    }
    assert("Ask me"@ =~= seq!['A', 's', 'k', ' ', 'm', 'e']) by {
        reveal_strlit("Ask me");
    }
    assert("Busy"@ =~= seq!['B', 'u', 's', 'y']) by {
        reveal_strlit("Busy");
    }
    assert("Offline"@ =~= seq!['O', 'f', 'f', 'l', 'i', 'n', 'e']) by {
        reveal_strlit("Offline");
    }
}

/// Format a user status, plainly or coloured for the terminal.  Without
/// colour the result is exactly the status label; with colour the label is
/// handed to the terminal painter, so the exact escape codes depend on the
/// environment, but the plain label always occurs in the result.
pub fn format_user_status(status: &UserStatus, use_color: bool) -> (r: String)
    ensures
        !use_color ==> r@ == status_label(*status),
        contains_seq(r@, status_label(*status)),
{
    let text: &str = match status {
        UserStatus::Active => "Active",
        UserStatus::JoinMe => "Join me",
        UserStatus::AskMe => "Ask me",
        UserStatus::Busy => "Busy",
        UserStatus::Offline => "Offline",
    };
    if use_color {
        proof {
            lemma_status_labels_esc_free(*status);
        }
        paint(text, status_color(status))
    } else {
        proof {
            lemma_contains_self(status_label(*status));
        }
        text.to_owned()
    }
}

/// Ordinal priority of a status: the most available status sorts first.
pub open spec fn spec_status_priority(s: UserStatus) -> int {
    match s {
        UserStatus::Active => 1,
        UserStatus::JoinMe => 2,
        UserStatus::AskMe => 3,
        UserStatus::Busy => 4,
        UserStatus::Offline => 5,
    }
}

/// Status priority for sorting: a lower number sorts first.
pub fn get_status_priority(status: &UserStatus) -> (r: u8)
    ensures
        r as int == spec_status_priority(*status),
{
    match status {
        UserStatus::Active => 1,
        UserStatus::JoinMe => 2,
        UserStatus::AskMe => 3,
        UserStatus::Busy => 4,
        UserStatus::Offline => 5,
    }
}

/// Whether the text begins like a Unity version string of a known year.
pub open spec fn is_unity_version(p: Seq<char>) -> bool {
    is_prefix_of("2019."@, p) || is_prefix_of("2020."@, p) || is_prefix_of("2021."@, p)
        || is_prefix_of("2022."@, p) || is_prefix_of("2023."@, p) || is_prefix_of("2024."@, p)
}

/// The short, human-friendly platform name.
pub open spec fn spec_platform_short(p: Seq<char>) -> Seq<char> {
    if p == "standalonewindows"@ {
        "PC"@
    } else if p == "android"@ {
        "Quest"@
    } else if p == "quest"@ {
        "Quest"@
    } else if p == "ios"@ {
        "iOS"@
    } else if p == "steamvr"@ {
        "SteamVR"@
    } else if p == "oculuspc"@ {
        "Oculus"@
    } else if is_unity_version(p) {
        "Unity"@ + p.subrange(0, 4)
    } else if p == "unknownplatform"@ {
        "Unknown"@
    } else if p == ""@ {
        "Unknown"@
    } else if p.len() > 8 {
        p.subrange(0, 5) + "..."@
    } else {
        p
    }
}

/// Format a platform tag as short text: known platforms get their product
/// name, Unity version strings show their year, anything longer than eight
/// characters is shortened.
pub fn format_platform_short(platform: &str) -> (r: String)
    ensures
        r@ == spec_platform_short(platform@),
{
    let v = to_chars(platform);
    if chars_eq_str(&v, "standalonewindows") {
        return "PC".to_owned();
    }
    if chars_eq_str(&v, "android") {
        return "Quest".to_owned();
    }
    if chars_eq_str(&v, "quest") {
        return "Quest".to_owned();
    }
    if chars_eq_str(&v, "ios") {
        return "iOS".to_owned();
    }
    if chars_eq_str(&v, "steamvr") {
        return "SteamVR".to_owned();
    }
    if chars_eq_str(&v, "oculuspc") {
        return "Oculus".to_owned();
    }
    let unity = starts_with_lit(&v, "2019.") || starts_with_lit(&v, "2020.") || starts_with_lit(
        &v,
        "2021.",
    ) || starts_with_lit(&v, "2022.") || starts_with_lit(&v, "2023.") || starts_with_lit(
        &v,
        "2024.",
    );
    if unity {
        let mut out = to_chars("Unity");
        let ghost pre = out@;
        proof {
            assert(v@.len() >= 5) by {
                reveal_strlit("2019.");
                reveal_strlit("2020.");
                reveal_strlit("2021.");
                reveal_strlit("2022.");
                reveal_strlit("2023.");
                reveal_strlit("2024.");
            }
        }
        out.push(v[0]);
        out.push(v[1]);
        out.push(v[2]);
        out.push(v[3]);
        proof {
            assert(out@ =~= pre + v@.subrange(0, 4));
        }
        return chars_to_string(&out);
    }
    if chars_eq_str(&v, "unknownplatform") {
        return "Unknown".to_owned();
    }
    if chars_eq_str(&v, "") {
        return "Unknown".to_owned();
    }
    if v.len() > 8 {
        let mut out: Vec<char> = Vec::new();
        out.push(v[0]);
        out.push(v[1]);
        out.push(v[2]);
        out.push(v[3]);
        out.push(v[4]);
        let mut dots = to_chars("...");
        let ghost pre = out@;
        out.append(&mut dots);
        proof {
            assert(pre =~= v@.subrange(0, 5));
            assert(out@ =~= v@.subrange(0, 5) + "..."@);
        }
        return chars_to_string(&out);
    }
    chars_to_string(&v)
}

/// Whether the character is an ASCII decimal digit.
pub open spec fn is_ascii_digit_char(c: char) -> bool {
    '0' <= c && c <= '9'
}

/// Whether the character is an ASCII uppercase letter.
pub open spec fn is_ascii_upper_char(c: char) -> bool {
    'A' <= c && c <= 'Z'
}

/// Whether the character is an ASCII lowercase letter.
pub open spec fn is_ascii_lower_char(c: char) -> bool {
    'a' <= c && c <= 'z'
}

/// Whether the character is ASCII alphanumeric.
pub open spec fn is_ascii_alnum_char(c: char) -> bool {
    is_ascii_digit_char(c) || is_ascii_upper_char(c) || is_ascii_lower_char(c)
}

/// A well-formed user id: the modern form is `usr_` followed by at least 32
/// characters; the legacy form is exactly eight alphanumeric characters with
/// at least one digit and at least one letter.
pub open spec fn spec_is_valid_user_id(s: Seq<char>) -> bool {
    if is_prefix_of("usr_"@, s) {
        s.len() - 4 >= 32
    } else if s.len() == 8 {
        (forall|i: int| 0 <= i < s.len() ==> is_ascii_alnum_char(#[trigger] s[i])) && (exists|
            i: int,
        |
            0 <= i < s.len() && is_ascii_digit_char(#[trigger] s[i])) && ((exists|i: int|
            0 <= i < s.len() && is_ascii_upper_char(#[trigger] s[i])) || (exists|i: int|
            0 <= i < s.len() && is_ascii_lower_char(#[trigger] s[i])))
    } else {
        false
    }
}

/// Validate a user id: either the modern `usr_`-prefixed form or the strict
/// legacy eight-character form.
pub fn is_valid_user_id(user_id: &str) -> (r: bool)
    ensures
        r == spec_is_valid_user_id(user_id@),
{
    let v = to_chars(user_id);
    if starts_with_lit(&v, "usr_") {
        proof {
            reveal_strlit("usr_");
        }
        return v.len() - 4 >= 32;
    }
    if v.len() != 8 {
        return false;
    }
    let n = v.len();
    let mut all_alnum = true;
    let mut has_digit = false;
    let mut has_upper = false;
    let mut has_lower = false;
    for i in 0..n
        invariant
            n == v@.len(),
            all_alnum == (forall|j: int| 0 <= j < i ==> is_ascii_alnum_char(#[trigger] v@[j])),
            has_digit == (exists|j: int| 0 <= j < i && is_ascii_digit_char(#[trigger] v@[j])),
            has_upper == (exists|j: int| 0 <= j < i && is_ascii_upper_char(#[trigger] v@[j])),
            has_lower == (exists|j: int| 0 <= j < i && is_ascii_lower_char(#[trigger] v@[j])),
    {
        let c = v[i];
        let digit = '0' <= c && c <= '9';
        let upper = 'A' <= c && c <= 'Z';
        let lower = 'a' <= c && c <= 'z';
        if !(digit || upper || lower) {
            all_alnum = false;
        }
        if digit {
            has_digit = true;
        }
        if upper {
            has_upper = true;
        }
        if lower {
            has_lower = true;
        }
    }
    all_alnum && has_digit && (has_upper || has_lower)
}

} // verus!
