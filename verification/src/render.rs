//! The page Content-Security-Policy: the configured template with the
//! per-request nonce filled in.

use vstd::prelude::*;

use crate::header::{
    check_header_value, header_value_ok, invalid_header_text, lemma_header_value_concat,
};
use crate::text::{
    lemma_replace_absent, lemma_replace_at_start, lemma_replace_prefix_untouched,
    lemma_replace_step, occurs_at, push_str, replace, replace_all,
};

verus! {

broadcast use vstd::string::group_string_axioms;

/// Placeholder in `settings.security.content_security_policy`.
pub const NONCE_PLACEHOLDER: &'static str = "{nonce}";

/// The policy text for one request: `template` with the nonce in place of
/// every `{nonce}`.
pub open spec fn csp_text(template: Seq<char>, nonce: Seq<char>) -> Seq<char> {
    replace_all(template, NONCE_PLACEHOLDER@, nonce)
}

/// The message of a policy that does not form a header value.
pub open spec fn csp_error_text() -> Seq<char> {
    "content-security-policy header: "@ + invalid_header_text()
}

/// Fills the nonce into the CSP template from the config and checks that
/// the result can stand as a header value; the text returned is the one
/// the response's `content-security-policy` header carries.
///
/// # Errors
/// The result is not a valid header value (the template is validated at
/// boot, so this only fires if the nonce itself were malformed).
pub fn csp_header(template: &str, nonce: &str) -> (r: Result<String, String>)
    ensures
        r is Ok <==> header_value_ok(csp_text(template@, nonce@)),
        r matches Ok(v) ==> v@ == csp_text(template@, nonce@),
        r matches Err(m) ==> m@ == csp_error_text(),
{
    proof {
        reveal_strlit("{nonce}");
    }
    let value = replace(template, NONCE_PLACEHOLDER, nonce);
    match check_header_value(value.as_str()) {
        Ok(()) => Ok(value),
        Err(e) => {
            let mut message = String::from_str("content-security-policy header: ");
            push_str(&mut message, e.as_str());
            proof {
                reveal_strlit("content-security-policy header: ");
            }
            Err(message)
        },
    }
}

/// The nonce takes the place of the placeholder and nothing else changes:
/// a template made of a text, `{nonce}` and another text, neither holding
/// a `{`, becomes the first text, the nonce and the second text.
pub proof fn lemma_nonce_fills_the_placeholder(a: Seq<char>, b: Seq<char>, nonce: Seq<char>)
    requires
        forall|i: int| 0 <= i < a.len() ==> a[i] != '{',
        forall|i: int| 0 <= i < b.len() ==> b[i] != '{',
    ensures
        csp_text(a + NONCE_PLACEHOLDER@ + b, nonce) == a + nonce + b,
{
    reveal_strlit("{nonce}");
    let p = NONCE_PLACEHOLDER@;
    assert(a + p + b =~= a + (p + b));
    lemma_replace_prefix_untouched(a, p + b, p, nonce);
    lemma_replace_at_start(b, p, nonce);
    lemma_replace_absent(b, p, nonce);
    assert(a + (nonce + b) =~= a + nonce + b);
}

/// Whatever a valid replacement makes valid, every valid replacement does.
proof fn lemma_replacement_validity(s: Seq<char>, p: Seq<char>, a: Seq<char>, b: Seq<char>)
    requires
        p.len() > 0,
        header_value_ok(replace_all(s, p, a)),
        header_value_ok(b),
    ensures
        header_value_ok(replace_all(s, p, b)),
    decreases s.len(),
{
    if s.len() > 0 {
        lemma_replace_step(s, p, a, 0);
        lemma_replace_step(s, p, b, 0);
        assert(s.skip(0) =~= s);
        if occurs_at(s, p, 0) {
            lemma_header_value_concat(a, replace_all(s.skip(p.len() as int), p, a));
            lemma_replacement_validity(s.skip(p.len() as int), p, a, b);
            lemma_header_value_concat(b, replace_all(s.skip(p.len() as int), p, b));
        } else {
            lemma_header_value_concat(seq![s[0]], replace_all(s.skip(1), p, a));
            lemma_replacement_validity(s.skip(1), p, a, b);
            lemma_header_value_concat(seq![s[0]], replace_all(s.skip(1), p, b));
        }
    }
}

/// A template that forms a valid header with a stand-in nonce forms one
/// with every nonce that is itself a valid header text: once the template
/// has passed the boot check, a page's policy can only fail on the nonce.
pub proof fn lemma_checked_template_accepts_every_valid_nonce(
    template: Seq<char>,
    stand_in: Seq<char>,
    nonce: Seq<char>,
)
    requires
        header_value_ok(csp_text(template, stand_in)),
        header_value_ok(nonce),
    ensures
        header_value_ok(csp_text(template, nonce)),
{
    reveal_strlit("{nonce}");
    lemma_replacement_validity(template, NONCE_PLACEHOLDER@, stand_in, nonce);
}

} // verus!
