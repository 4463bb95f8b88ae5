//! `/robots.txt`, decided by environment. Only production may be indexed;
//! staging, development and test tell crawlers to stay away, so the staging
//! copy never competes with the live site in search results.

use vstd::prelude::*;

use crate::environment::Environment;

verus! {

broadcast use vstd::string::group_string_axioms;

/// The file body for a given environment.
pub fn body_for(env: &Environment) -> (body: &'static str)
    ensures
        env is Production ==> body@ == "User-agent: *\nAllow: /\n"@,
        !(env is Production) ==> body@ == "User-agent: *\nDisallow: /\n"@,
{
    match env {
        Environment::Production => "User-agent: *\nAllow: /\n",
        _ => "User-agent: *\nDisallow: /\n",
    }
}

} // verus!
