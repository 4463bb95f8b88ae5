use saas_starter::render::{csp_header, NONCE_PLACEHOLDER};

#[test]
fn nonce_is_substituted() {
    let value = csp_header(
        "default-src 'self'; script-src 'self' 'nonce-{nonce}' 'wasm-unsafe-eval'",
        "abc123",
    )
    .expect("valid header");
    assert_eq!(
        value,
        "default-src 'self'; script-src 'self' 'nonce-abc123' 'wasm-unsafe-eval'"
    );
    assert!(!value.contains(NONCE_PLACEHOLDER));
}

#[test]
fn invalid_header_value_is_an_error() {
    let err = csp_header("default-src 'self'\nscript-src {nonce}", "abc123")
        .expect_err("newline is not allowed in a header value");
    assert!(err.contains("content-security-policy"), "{err}");
    assert_eq!(err, "content-security-policy header: failed to parse header value");
}

#[test]
fn malformed_nonce_is_an_error() {
    let err = csp_header("script-src 'nonce-{nonce}'", "a\u{7f}b").expect_err("DEL in nonce");
    assert!(err.contains("content-security-policy"), "{err}");
}

#[test]
fn every_placeholder_is_filled() {
    let value = csp_header("a {nonce} b {nonce}", "n").expect("valid header");
    assert_eq!(value, "a n b n");
}
