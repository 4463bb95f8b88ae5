//! Values the document shell is built from.

use vstd::prelude::*;

use crate::text::{decimal, push_char, push_decimal, push_str};

verus! {

broadcast use vstd::string::group_string_axioms;

/// Shown in the header, the footer and the browser tab. One place to
/// change when the app gets its real name.
pub const APP_NAME: &'static str = "SaaS Starter";

/// The centred prose column shared by the landmarks.
pub const COLUMN: &'static str = "mx-auto max-w-3xl px-6";

/// Per-page values that go straight into `<head>`.
#[derive(Clone, Debug)]
pub struct PageMeta {
    /// BCP 47 tag for `<html lang>`.
    pub lang: &'static str,
    pub title: String,
    pub description: String,
}

/// A year as text: its decimal digits, with a `-` before a year before 1 BCE.
pub open spec fn year_text(year: i32) -> Seq<char> {
    if year < 0 {
        seq!['-'] + decimal((-year) as nat)
    } else {
        decimal(year as nat)
    }
}

/// The footer line for `year`: "© <year> <APP_NAME>".
pub fn footer_text(year: i32) -> (s: String)
    ensures
        s@ == "© "@ + year_text(year) + " "@ + APP_NAME@,
{
    let mut s = String::from_str("© ");
    if year < 0 {
        push_char(&mut s, '-');
        let magnitude: i64 = -(year as i64);
        push_decimal(&mut s, magnitude as u64);
    } else {
        push_decimal(&mut s, year as u64);
    }
    push_str(&mut s, " ");
    push_str(&mut s, APP_NAME);
    proof {
        reveal_strlit("© ");
        reveal_strlit(" ");
        assert(s@ =~= "© "@ + year_text(year) + " "@ + APP_NAME@);
    }
    s
}

} // verus!
