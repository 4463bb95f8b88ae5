//! The environment the server runs in (`LOCO_ENV`).

use vstd::prelude::*;

verus! {

/// The environment the server was started in. A name the framework does not
/// know (`staging`) arrives as `Any`.
#[derive(Clone, Debug)]
pub enum Environment {
    Development,
    Production,
    Test,
    Any(String),
}

/// Development and test: the environments that run on a developer's machine
/// or inside the test harness.
pub open spec fn spec_is_local(env: Environment) -> bool {
    env is Development || env is Test
}

} // verus!
