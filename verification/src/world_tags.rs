//! User-friendly formatting of a world's tag list.

use vstd::prelude::*;
use crate::strutil::{chars_eq_str, is_prefix_of, strip_prefix_lit, upper_chars, upper_of};
use crate::text::{chars_to_string, to_chars};

verus! {

/// The label for an exact, well-known tag, if the tag is one of them.
pub open spec fn spec_tag_mapping(t: Seq<char>) -> Option<Seq<char>> {
    if t == "system_approved"@ {
        Some("\u{2705} System Approved"@)
    } else if t == "android_supported"@ {
        Some("\u{1f4f1} Android"@)
    } else if t == "ios_supported"@ {
        Some("\u{1f4f1} iOS"@)
    } else if t == "pc_supported"@ {
        Some("\u{1f5a5}\u{fe0f} PC"@)
    } else if t == "quest_supported"@ {
        Some("\u{1f97d} Quest"@)
    } else if t == "content_horror"@ {
        Some("\u{26a0}\u{fe0f} Horror"@)
    } else if t == "content_violence"@ {
        Some("\u{26a0}\u{fe0f} Violence"@)
    } else if t == "content_gore"@ {
        Some("\u{26a0}\u{fe0f} Gore"@)
    } else if t == "content_adult"@ {
        Some("\u{1f51e} Adult Content"@)
    } else {
        None
    }
}

/// Underscores turned into spaces, for tags without a nicer label.
pub open spec fn spec_unders_to_spaces(s: Seq<char>) -> Seq<char> {
    s.map_values(
        |c: char|
            if c == '_' {
                ' '
            } else {
                c
            },
    )
}

/// The label of an author tag suffix.
pub open spec fn spec_author_tag(s: Seq<char>) -> Seq<char> {
    if s == "game"@ {
        "Game"@
    } else if s == "social"@ {
        "Social"@
    } else if s == "art"@ {
        "Art"@
    } else if s == "music"@ {
        "Music"@
    } else if s == "dance"@ {
        "Dance"@
    } else if s == "club"@ {
        "Club"@
    } else if s == "avatar"@ {
        "Avatar World"@
    } else if s == "hangout"@ {
        "Hangout"@
    } else if s == "roleplay"@ {
        "Roleplay"@
    } else if s == "udon"@ {
        "Udon Scripting"@
    } else if s == "murder"@ {
        "Murder Mystery"@
    } else if s == "horror"@ {
        "Horror"@
    } else if s == "puzzle"@ {
        "Puzzle"@
    } else if s == "exploration"@ {
        "Exploration"@
    } else if s == "parkour"@ {
        "Parkour"@
    } else if s == "comedy"@ {
        "Comedy"@
    } else if s == "educational"@ {
        "Educational"@
    } else if s == "showcase"@ {
        "Showcase"@
    } else if s == "photomode"@ {
        "Photo Mode"@
    } else {
        spec_unders_to_spaces(s)
    }
}

/// The label of a feature tag suffix.
pub open spec fn spec_feature_tag(s: Seq<char>) -> Seq<char> {
    if s == "drones_disabled"@ {
        "No Drones"@
    } else if s == "mirror_disabled"@ {
        "No Mirrors"@
    } else if s == "camera_disabled"@ {
        "No Camera"@
    } else if s == "udon_enabled"@ {
        "Udon Scripts"@
    } else if s == "particle_system"@ {
        "Particle Effects"@
    } else {
        spec_unders_to_spaces(s)
    }
}

/// The label of a content tag suffix.
pub open spec fn spec_content_tag(s: Seq<char>) -> Seq<char> {
    if s == "horror"@ {
        "Horror Content"@
    } else if s == "violence"@ {
        "Violence"@
    } else if s == "gore"@ {
        "Gore"@
    } else if s == "adult"@ {
        "Adult Content"@
    } else if s == "suggestive"@ {
        "Suggestive Content"@
    } else if s == "drug_use"@ {
        "Drug References"@
    } else if s == "alcohol"@ {
        "Alcohol"@
    } else if s == "gambling"@ {
        "Gambling"@
    } else {
        spec_unders_to_spaces(s)
    }
}

/// The label of a language tag suffix.
pub open spec fn spec_language_tag(s: Seq<char>) -> Seq<char> {
    if s == "eng"@ || s == "en"@ {
        "English"@
    } else if s == "jpn"@ || s == "ja"@ {
        "Japanese"@
    } else if s == "kor"@ || s == "ko"@ {
        "Korean"@
    } else if s == "chi"@ || s == "zh"@ {
        "Chinese"@
    } else if s == "spa"@ || s == "es"@ {
        "Spanish"@
    } else if s == "fra"@ || s == "fr"@ {
        "French"@
    } else if s == "ger"@ || s == "de"@ {
        "German"@
    } else if s == "rus"@ || s == "ru"@ {
        "Russian"@
    } else if s == "ita"@ || s == "it"@ {
        "Italian"@
    } else if s == "por"@ || s == "pt"@ {
        "Portuguese"@
    } else {
        upper_of(s)
    }
}

/// The label of a system tag suffix.
pub open spec fn spec_system_tag(s: Seq<char>) -> Seq<char> {
    if s == "approved"@ {
        "System Approved"@
    } else if s == "featured"@ {
        "System Featured"@
    } else if s == "labs"@ {
        "VRChat Labs"@
    } else {
        spec_unders_to_spaces(s)
    }
}

/// The label of an admin tag suffix.
pub open spec fn spec_admin_tag(s: Seq<char>) -> Seq<char> {
    if s == "approved"@ {
        "Admin Approved"@
    } else if s == "featured"@ {
        "Admin Featured"@
    } else if s == "vrrat_community_takeover"@ {
        "VRRat Community Takeover"@
    } else if s == "community_spotlight"@ {
        "Community Spotlight"@
    } else if s == "staff_pick"@ {
        "Staff Pick"@
    } else if s == "verified_creator"@ {
        "Verified Creator"@
    } else {
        spec_unders_to_spaces(s)
    }
}

/// One tag, formatted: an exact well-known label first, then the family
/// prefixes, then the tag itself unchanged.
pub open spec fn spec_single_tag(t: Seq<char>) -> Seq<char> {
    match spec_tag_mapping(t) {
        Some(label) => label,
        None => if is_prefix_of("author_tag_"@, t) {
            "\u{1f4dd} "@ + spec_author_tag(t.skip("author_tag_"@.len() as int))
        } else if is_prefix_of("feature_"@, t) {
            "\u{2699}\u{fe0f} "@ + spec_feature_tag(t.skip("feature_"@.len() as int))
        } else if is_prefix_of("content_"@, t) {
            "\u{1f4cb} "@ + spec_content_tag(t.skip("content_"@.len() as int))
        } else if is_prefix_of("lang_"@, t) {
            "\u{1f310} "@ + spec_language_tag(t.skip("lang_"@.len() as int))
        } else if is_prefix_of("system_"@, t) {
            "\u{1f527} "@ + spec_system_tag(t.skip("system_"@.len() as int))
        } else if is_prefix_of("admin_"@, t) {
            "\u{1f477} "@ + spec_admin_tag(t.skip("admin_"@.len() as int))
        } else {
            t
        },
    }
}

/// The tag list, formatted and joined with commas.
pub open spec fn spec_joined_tags(tags: Seq<Seq<char>>) -> Seq<char>
    decreases tags.len(),
{
    if tags.len() == 0 {
        Seq::<char>::empty()
    } else if tags.len() == 1 {
        spec_single_tag(tags[0])
    } else {
        spec_single_tag(tags[0]) + ", "@ + spec_joined_tags(tags.drop_first())
    }
}

/// The whole tag list: `None` when empty, the joined labels otherwise.
pub open spec fn spec_world_tags(tags: Seq<Seq<char>>) -> Seq<char> {
    if tags.len() == 0 {
        "None"@
    } else {
        spec_joined_tags(tags)
    }
}

/// Underscores turned into spaces, executable.
fn unders_to_spaces(v: &Vec<char>) -> (r: Vec<char>)
    ensures
        r@ == spec_unders_to_spaces(v@),
{
    let mut r: Vec<char> = Vec::new();
    let n = v.len();
    for i in 0..n
        invariant
            n == v@.len(),
            r@ =~= spec_unders_to_spaces(v@.take(i as int)),
    {
        let c = v[i];
        if c == '_' {
            r.push(' ');
        } else {
            r.push(c);
        }
        proof {
            assert(r@ =~= spec_unders_to_spaces(v@.take(i + 1)));
        }
    }
    proof {
        assert(v@.take(n as int) =~= v@);
    }
    r
}

/// Look up an exact, well-known tag label.
fn exact_tag_label(v: &Vec<char>) -> (r: Option<&'static str>)
    ensures
        match r {
            Some(s) => spec_tag_mapping(v@) == Some(s@),
            None => spec_tag_mapping(v@) is None,
        },
{
    if chars_eq_str(v, "system_approved") {
        Some("\u{2705} System Approved")
    } else if chars_eq_str(v, "android_supported") {
        Some("\u{1f4f1} Android")
    } else if chars_eq_str(v, "ios_supported") {
        Some("\u{1f4f1} iOS")
    } else if chars_eq_str(v, "pc_supported") {
        Some("\u{1f5a5}\u{fe0f} PC")
    } else if chars_eq_str(v, "quest_supported") {
        Some("\u{1f97d} Quest")
    } else if chars_eq_str(v, "content_horror") {
        Some("\u{26a0}\u{fe0f} Horror")
    } else if chars_eq_str(v, "content_violence") {
        Some("\u{26a0}\u{fe0f} Violence")
    } else if chars_eq_str(v, "content_gore") {
        Some("\u{26a0}\u{fe0f} Gore")
    } else if chars_eq_str(v, "content_adult") {
        Some("\u{1f51e} Adult Content")
    } else {
        None
    }
}

/// Format an author tag suffix.
fn author_tag_label(v: &Vec<char>) -> (r: Vec<char>)
    ensures
        r@ == spec_author_tag(v@),
{
    if chars_eq_str(v, "game") {
        to_chars("Game")
    } else if chars_eq_str(v, "social") {
        to_chars("Social")
    } else if chars_eq_str(v, "art") {
        to_chars("Art")
    } else if chars_eq_str(v, "music") {
        to_chars("Music")
    } else if chars_eq_str(v, "dance") {
        to_chars("Dance")
    } else if chars_eq_str(v, "club") {
        to_chars("Club")
    } else if chars_eq_str(v, "avatar") {
        to_chars("Avatar World")
    } else if chars_eq_str(v, "hangout") {
        to_chars("Hangout")
    } else if chars_eq_str(v, "roleplay") {
        to_chars("Roleplay")
    } else if chars_eq_str(v, "udon") {
        to_chars("Udon Scripting")
    } else if chars_eq_str(v, "murder") {
        to_chars("Murder Mystery")
    } else if chars_eq_str(v, "horror") {
        to_chars("Horror")
    } else if chars_eq_str(v, "puzzle") {
        to_chars("Puzzle")
    } else if chars_eq_str(v, "exploration") {
        to_chars("Exploration")
    } else if chars_eq_str(v, "parkour") {
        to_chars("Parkour")
    } else if chars_eq_str(v, "comedy") {
        to_chars("Comedy")
    } else if chars_eq_str(v, "educational") {
        to_chars("Educational")
    } else if chars_eq_str(v, "showcase") {
        to_chars("Showcase")
    } else if chars_eq_str(v, "photomode") {
        to_chars("Photo Mode")
    } else {
        unders_to_spaces(v)
    }
}

/// Format a feature tag suffix.
fn feature_tag_label(v: &Vec<char>) -> (r: Vec<char>)
    ensures
        r@ == spec_feature_tag(v@),
{
    if chars_eq_str(v, "drones_disabled") {
        to_chars("No Drones")
    } else if chars_eq_str(v, "mirror_disabled") {
        to_chars("No Mirrors")
    } else if chars_eq_str(v, "camera_disabled") {
        to_chars("No Camera")
    } else if chars_eq_str(v, "udon_enabled") {
        to_chars("Udon Scripts")
    } else if chars_eq_str(v, "particle_system") {
        to_chars("Particle Effects")
    } else {
        unders_to_spaces(v)
    }
}

/// Format a content tag suffix.
fn content_tag_label(v: &Vec<char>) -> (r: Vec<char>)
    ensures
        r@ == spec_content_tag(v@),
{
    if chars_eq_str(v, "horror") {
        to_chars("Horror Content")
    } else if chars_eq_str(v, "violence") {
        to_chars("Violence")
    } else if chars_eq_str(v, "gore") {
        to_chars("Gore")
    } else if chars_eq_str(v, "adult") {
        to_chars("Adult Content")
    } else if chars_eq_str(v, "suggestive") {
        to_chars("Suggestive Content")
    } else if chars_eq_str(v, "drug_use") {
        to_chars("Drug References")
    } else if chars_eq_str(v, "alcohol") {
        to_chars("Alcohol")
    } else if chars_eq_str(v, "gambling") {
        to_chars("Gambling")
    } else {
        unders_to_spaces(v)
    }
}

/// Format a language tag suffix.
fn language_tag_label(v: &Vec<char>) -> (r: Vec<char>)
    ensures
        r@ == spec_language_tag(v@),
{
    if chars_eq_str(v, "eng") || chars_eq_str(v, "en") {
        to_chars("English")
    } else if chars_eq_str(v, "jpn") || chars_eq_str(v, "ja") {
        to_chars("Japanese")
    } else if chars_eq_str(v, "kor") || chars_eq_str(v, "ko") {
        to_chars("Korean")
    } else if chars_eq_str(v, "chi") || chars_eq_str(v, "zh") {
        to_chars("Chinese")
    } else if chars_eq_str(v, "spa") || chars_eq_str(v, "es") {
        to_chars("Spanish")
    } else if chars_eq_str(v, "fra") || chars_eq_str(v, "fr") {
        to_chars("French")
    } else if chars_eq_str(v, "ger") || chars_eq_str(v, "de") {
        to_chars("German")
    } else if chars_eq_str(v, "rus") || chars_eq_str(v, "ru") {
        to_chars("Russian")
    } else if chars_eq_str(v, "ita") || chars_eq_str(v, "it") {
        to_chars("Italian")
    } else if chars_eq_str(v, "por") || chars_eq_str(v, "pt") {
        to_chars("Portuguese")
    } else {
        let s = chars_to_string(v);
        upper_chars(s.as_str())
    }
}

/// Format a system tag suffix.
fn system_tag_label(v: &Vec<char>) -> (r: Vec<char>)
    ensures
        r@ == spec_system_tag(v@),
{
    if chars_eq_str(v, "approved") {
        to_chars("System Approved")
    } else if chars_eq_str(v, "featured") {
        to_chars("System Featured")
    } else if chars_eq_str(v, "labs") {
        to_chars("VRChat Labs")
    } else {
        unders_to_spaces(v)
    }
}

/// Format an admin tag suffix.
fn admin_tag_label(v: &Vec<char>) -> (r: Vec<char>)
    ensures
        r@ == spec_admin_tag(v@),
{
    if chars_eq_str(v, "approved") {
        to_chars("Admin Approved")
    } else if chars_eq_str(v, "featured") {
        to_chars("Admin Featured")
    } else if chars_eq_str(v, "vrrat_community_takeover") {
        to_chars("VRRat Community Takeover")
    } else if chars_eq_str(v, "community_spotlight") {
        to_chars("Community Spotlight")
    } else if chars_eq_str(v, "staff_pick") {
        to_chars("Staff Pick")
    } else if chars_eq_str(v, "verified_creator") {
        to_chars("Verified Creator")
    } else {
        unders_to_spaces(v)
    }
}

/// Format a single tag to be more user-friendly.
pub fn format_single_tag(tag: &str) -> (r: String)
    ensures
        r@ == spec_single_tag(tag@),
{
    let v = to_chars(tag);
    match exact_tag_label(&v) {
        Some(label) => label.to_owned(),
        None => {
            if let Some(sfx) = strip_prefix_lit(&v, "author_tag_") {
                let mut out = to_chars("\u{1f4dd} ");
                let ghost pre = out@;
                let mut label = author_tag_label(&sfx);
                out.append(&mut label);
                assert(out@ =~= pre + spec_author_tag(sfx@));
                chars_to_string(&out)
            } else if let Some(sfx) = strip_prefix_lit(&v, "feature_") {
                let mut out = to_chars("\u{2699}\u{fe0f} ");
                let ghost pre = out@;
                let mut label = feature_tag_label(&sfx);
                out.append(&mut label);
                assert(out@ =~= pre + spec_feature_tag(sfx@));
                chars_to_string(&out)
            } else if let Some(sfx) = strip_prefix_lit(&v, "content_") {
                let mut out = to_chars("\u{1f4cb} ");
                let ghost pre = out@;
                let mut label = content_tag_label(&sfx);
                out.append(&mut label);
                assert(out@ =~= pre + spec_content_tag(sfx@));
                chars_to_string(&out)
            } else if let Some(sfx) = strip_prefix_lit(&v, "lang_") {
                let mut out = to_chars("\u{1f310} ");
                let ghost pre = out@;
                let mut label = language_tag_label(&sfx);
                out.append(&mut label);
                assert(out@ =~= pre + spec_language_tag(sfx@));
                chars_to_string(&out)
            } else if let Some(sfx) = strip_prefix_lit(&v, "system_") {
                let mut out = to_chars("\u{1f527} ");
                let ghost pre = out@;
                let mut label = system_tag_label(&sfx);
                out.append(&mut label);
                assert(out@ =~= pre + spec_system_tag(sfx@));
                chars_to_string(&out)
            } else if let Some(sfx) = strip_prefix_lit(&v, "admin_") {
                let mut out = to_chars("\u{1f477} ");
                let ghost pre = out@;
                let mut label = admin_tag_label(&sfx);
                out.append(&mut label);
                assert(out@ =~= pre + spec_admin_tag(sfx@));
                chars_to_string(&out)
            } else {
                chars_to_string(&v)
            }
        },
    }
}

/// Format a world's tag list in a user-friendly way.
pub fn format_world_tags(tags: &Vec<String>) -> (r: String)
    ensures
        r@ == spec_world_tags(crate::json::strings_view(tags@)),
{
    if tags.len() == 0 {
        return "None".to_owned();
    }
    let mut out: Vec<char> = Vec::new();
    push_joined_tags(&mut out, tags, 0);
    proof {
        assert(crate::json::strings_view(tags@).skip(0) =~= crate::json::strings_view(tags@));
    }
    chars_to_string(&out)
}

/// Append the formatted tags from `from` on, comma-separated.
fn push_joined_tags(out: &mut Vec<char>, tags: &Vec<String>, from: usize)
    requires
        from < tags@.len(),
    ensures
        final(out)@ == old(out)@ + spec_joined_tags(
            crate::json::strings_view(tags@).skip(from as int),
        ),
    decreases tags@.len() - from,
{
    let ghost items = crate::json::strings_view(tags@).skip(from as int);
    proof {
        assert(items[0] == tags@[from as int]@);
        assert(items.drop_first() =~= crate::json::strings_view(tags@).skip(from + 1));
    }
    let label = format_single_tag(tags[from].as_str());
    let mut lv = to_chars(label.as_str());
    out.append(&mut lv);
    let n = tags.len();
    if from + 1 < n {
        out.push(',');
        out.push(' ');
        push_joined_tags(out, tags, from + 1);
        proof {
            assert(", "@ =~= seq![',', ' ']) by {
                reveal_strlit(", ");
            }
            assert(final(out)@ =~= old(out)@ + spec_joined_tags(items));
        }
    } else {
        proof {
            assert(items.len() == 1);
            assert(final(out)@ =~= old(out)@ + spec_joined_tags(items));
        }
    }
}

} // verus!
