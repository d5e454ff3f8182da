//! The login payload, and the session cookie lookup.

use crate::method::{starts_with_chars, str_starts_with};
use crate::strconv::{find_char_at, find_char_from, lemma_find_char_from_props};
use vstd::prelude::*;
use vstd::string::{StrSliceExecFns, StringExecFns};

verus! {

/// Credentials sent to the login endpoint.
#[derive(Debug)]
pub struct User {
    pub username: String,
    pub password_hash: String,
}

/// The cookie key that carries the session id.
pub open spec fn session_cookie_key() -> Seq<char> {
    "session_id="@
}

/// What the cookie lookup yields: among the `;`-separated parts of the
/// header value, the first that begins with `session_id=`, with that prefix
/// removed; `None` when no part begins with it.  Parts are not trimmed, so a
/// part that begins with a space never matches.
pub open spec fn spec_session_id(s: Seq<char>) -> Option<Seq<char>>
    decreases s.len(),
    via spec_session_id_decreases
{
    let p = find_char_from(s, ';', 0);
    let part = s.take(p);
    if starts_with_chars(part, session_cookie_key()) {
        Some(part.skip(session_cookie_key().len() as int))
    } else if p == s.len() {
        None
    } else {
        spec_session_id(s.skip(p + 1))
    }
}

#[via_fn]
proof fn spec_session_id_decreases(s: Seq<char>) {
    lemma_find_char_from_props(s, ';', 0);
}

/// Extracts the session id from a cookie header value.
pub fn get_session_id(cookie_str: &str) -> (r: Option<String>)
    ensures
        r is Some <==> spec_session_id(cookie_str@) is Some,
        r is Some ==> r->0@ == spec_session_id(cookie_str@)->0,
{
    proof {
        reveal_strlit("session_id=");
        assert(session_cookie_key().len() == 11);
    }
    let n = cookie_str.unicode_len();
    let mut pos: usize = 0;
    proof {
        assert(cookie_str@.skip(0) =~= cookie_str@);
    }
    loop
        invariant
            pos <= n,
            n == cookie_str@.len(),
            session_cookie_key().len() == 11,
            spec_session_id(cookie_str@) == spec_session_id(cookie_str@.skip(pos as int)),
        decreases n - pos,
    {
        let rest = cookie_str.substring_char(pos, n);
        let ghost rem = cookie_str@.skip(pos as int);
        proof {
            assert(rest@ =~= rem);
            lemma_find_char_from_props(rem, ';', 0);
        }
        let rn = rest.unicode_len();
        let p = find_char_at(rest, ';', 0);
        let part = rest.substring_char(0, p);
        proof {
            assert(part@ =~= rem.take(p as int));
        }
        if str_starts_with(part, "session_id=") {
            let pl = part.unicode_len();
            let val = part.substring_char(11, pl);
            proof {
                assert(val@ =~= part@.skip(11));
            }
            return Some(String::from_str(val));
        }
        if p == rn {
            return None;
        }
        pos = pos + p + 1;
        proof {
            assert(rem.skip(p + 1) =~= cookie_str@.skip(pos as int));
        }
    }
}

} // verus!
