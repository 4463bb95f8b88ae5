//! The application's identity.

use vstd::prelude::*;

use crate::text::push_str;

verus! {

broadcast use vstd::string::group_string_axioms;

/// The application. Its framework hooks are wired up around the library.
pub struct App;

/// The build the version names: the release build's SHA, else the CI's
/// commit SHA, else `dev`.
pub open spec fn build_name(build_sha: Option<&str>, github_sha: Option<&str>) -> Seq<char> {
    match build_sha {
        Some(sha) => sha@,
        None => match github_sha {
            Some(sha) => sha@,
            None => "dev"@,
        },
    }
}

impl App {
    /// The version the app reports: `<package version> (<build>)`.
    pub fn app_version(
        package_version: &str,
        build_sha: Option<&str>,
        github_sha: Option<&str>,
    ) -> (v: String)
        ensures
            v@ == package_version@ + " ("@ + build_name(build_sha, github_sha) + ")"@,
            build_sha matches Some(sha) ==> v@ == package_version@ + " ("@ + sha@ + ")"@,
            build_sha is None ==> (github_sha matches Some(sha) ==> v@ == package_version@ + " ("@
                + sha@ + ")"@),
            build_sha is None && github_sha is None ==> v@ == package_version@ + " (dev)"@,
    {
        let build = match build_sha {
            Some(sha) => sha,
            None => match github_sha {
                Some(sha) => sha,
                None => "dev",
            },
        };
        let mut v = String::from_str(package_version);
        push_str(&mut v, " (");
        push_str(&mut v, build);
        push_str(&mut v, ")");
        proof {
            reveal_strlit("dev");
            reveal_strlit(" (");
            reveal_strlit(")");
            reveal_strlit(" (dev)");
            assert(" (dev)"@ =~= " ("@ + "dev"@ + ")"@);
        }
        v
    }
}

} // verus!
