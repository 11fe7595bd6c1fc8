//! Small helpers around authentication input.

use vstd::prelude::*;
use crate::strutil::{is_prefix_of, spec_trim_by, starts_with_lit, trim_chars, trim_quotes};
use crate::text::{chars_to_string, to_chars};

verus! {

/// Validate the shape of an auth cookie: it must carry the `authcookie_`
/// prefix, and is rejected with the reason otherwise.
pub fn validate_auth_cookie(auth_cookie: &str) -> (r: Result<(), String>)
    ensures
        r is Ok <==> is_prefix_of("authcookie_"@, auth_cookie@),
        r matches Err(m) ==> m@ == "Invalid auth cookie format: must start with 'authcookie_'"@,
{
    let v = to_chars(auth_cookie);
    if starts_with_lit(&v, "authcookie_") {
        Ok(())
    } else {
        Err("Invalid auth cookie format: must start with 'authcookie_'".to_owned())
    }
}

/// Whether the cookie looks too short to be a complete value — worth a
/// warning, never an error.
pub fn cookie_seems_short(auth_cookie: &str) -> (r: bool)
    ensures
        r == (auth_cookie@.len() < 20),
{
    let v = to_chars(auth_cookie);
    v.len() < 20
}

/// A cookie value as entered by a user, normalized: surrounding whitespace
/// stripped first, then any surrounding double quotes.
pub fn normalize_cookie_value(cookie: &str) -> (r: String)
    ensures
        r@ == spec_trim_by(spec_trim_by(cookie@, false), true),
{
    let v = to_chars(cookie);
    let t = trim_chars(&v);
    let q = trim_quotes(&t);
    chars_to_string(&q)
}

} // verus!
