//! Client-side endpoint configuration: a base URL and the user endpoints
//! derived from it.
//!
//! Reading the base URL from the environment happens outside the library;
//! the configuration itself is a plain value.

use vstd::prelude::*;
use vstd::string::StringExecFns;

verus! {

/// The client configuration: the base URL every endpoint hangs off.
#[derive(Debug)]
pub struct Config {
    pub base_url: String,
}

impl Config {
    /// Wraps a base URL obtained elsewhere, typically from the environment.
    pub fn new(base_url: String) -> (r: Config)
        ensures
            r.base_url == base_url,
    {
        Config { base_url }
    }

    /// The users endpoint.
    pub fn get_user_url(&self) -> (r: String)
        ensures
            r@ == self.base_url@ + "/users"@,
    {
        let mut s = self.base_url.clone();
        s.append("/users");
        s
    }

    /// The profile endpoint.
    pub fn get_profile_url(&self) -> (r: String)
        ensures
            r@ == self.base_url@ + "/users/profile"@,
    {
        let mut s = self.base_url.clone();
        s.append("/users/profile");
        s
    }

    /// The endpoint for one user, by name.
    pub fn get_username_url(&self, username: &str) -> (r: String)
        ensures
            r@ == self.base_url@ + "/users/"@ + username@,
    {
        let mut s = self.base_url.clone();
        s.append("/users/");
        s.append(username);
        s
    }
}

impl Default for Config {
    /// The fallback configuration: the local development server.
    fn default() -> (r: Config)
        ensures
            r.base_url@ == "http://127.0.0.1:7878"@,
    {
        Config { base_url: String::from_str("http://127.0.0.1:7878") }
    }
}

} // verus!
