//! Authentication configuration values.  Loading and saving them, and the
//! credential store on disk, belong to the surrounding program; the
//! library holds only the plain values.

use vstd::prelude::*;

verus! {

/// How the client authenticates.
#[derive(Debug, Clone)]
pub enum AuthMethod {
    Password { username: String, password: String },
    Cookie { auth_cookie: String, two_fa_cookie: Option<String> },
}

/// The persisted configuration: the chosen authentication method.
#[derive(Debug, Clone)]
pub struct Config {
    pub auth_method: AuthMethod,
}

impl Config {
    /// A configuration that authenticates with username and password.
    pub fn new_password(username: String, password: String) -> (r: Config)
        ensures
            r.auth_method == (AuthMethod::Password { username, password }),
    {
        Config { auth_method: AuthMethod::Password { username, password } }
    }

    /// A configuration that authenticates with a saved cookie, and
    /// possibly a two-factor cookie beside it.
    pub fn new_cookie(auth_cookie: String, two_fa_cookie: Option<String>) -> (r: Config)
        ensures
            r.auth_method == (AuthMethod::Cookie { auth_cookie, two_fa_cookie }),
    {
        Config { auth_method: AuthMethod::Cookie { auth_cookie, two_fa_cookie } }
    }
}

} // verus!
