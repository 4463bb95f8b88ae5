//! Values the authentication mails are built from.

use vstd::prelude::*;

use crate::text::{chars_of, string_of};

verus! {

broadcast use vstd::string::group_string_axioms;

/// `s` without its trailing `c` characters (`str::trim_end_matches`).
pub open spec fn trim_end_char(s: Seq<char>, c: char) -> Seq<char>
    decreases s.len(),
{
    if s.len() > 0 && s.last() == c {
        trim_end_char(s.drop_last(), c)
    } else {
        s
    }
}

/// The public origin the links in a mail start with: the configured
/// `server.host` without trailing slashes. Behind a reverse proxy the bind
/// port is not the public one, so the configured host is used as is.
pub fn origin(host: &str) -> (o: String)
    ensures
        o@ == trim_end_char(host@, '/'),
        o@.len() > 0 ==> o@.last() != '/',
        o@.len() <= host@.len(),
        o@ == host@.take(o@.len() as int),
        forall|i: int| o@.len() <= i < host@.len() ==> host@[i] == '/',
        host@.len() > 0 && host@.last() != '/' ==> o@ == host@,
{
    let mut v = chars_of(host);
    while v.len() > 0 && v[v.len() - 1] == '/'
        invariant
            trim_end_char(v@, '/') == trim_end_char(host@, '/'),
            v.len() <= host@.len(),
            v@ == host@.take(v.len() as int),
            forall|i: int| v.len() <= i < host@.len() ==> host@[i] == '/',
        decreases v.len(),
    {
        v.pop();
    }
    proof {
        if v.len() < host@.len() {
            assert(host@[host@.len() - 1] == '/');
        } else {
            assert(host@.take(v.len() as int) =~= host@);
        }
    }
    string_of(&v)
}

pub open spec fn missing_token_text() -> Seq<char> {
    "the user model not contains magic link token"@
}

/// The token a magic-link mail carries; a user without one cannot be sent
/// such a mail.
pub fn magic_link_token(token: Option<&str>) -> (r: Result<String, String>)
    ensures
        match (token, r) {
            (Some(t), Ok(s)) => s@ == t@,
            (None, Err(m)) => m@ == missing_token_text(),
            _ => false,
        },
{
    match token {
        Some(t) => Ok(String::from_str(t)),
        None => {
            proof {
                reveal_strlit("the user model not contains magic link token");
            }
            Err(String::from_str("the user model not contains magic link token"))
        },
    }
}

} // verus!
