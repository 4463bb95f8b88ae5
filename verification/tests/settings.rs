use saas_starter::settings::{
    NightlyRestartSettings, RateLimitSettings, SecuritySettings, Settings, SettingsBlock,
};

const CSP: &str = "default-src 'self'; script-src 'self' 'nonce-{nonce}'";

fn security() -> SecuritySettings {
    SecuritySettings { content_security_policy: CSP.to_string() }
}

fn rate_limit() -> RateLimitSettings {
    RateLimitSettings { enable: true, per_second: 1, burst: 5 }
}

fn settings(rate_limit: RateLimitSettings, security: SecuritySettings) -> Settings {
    Settings { rate_limit, security, nightly_restart: NightlyRestartSettings::default() }
}

#[test]
fn valid_block_parses() {
    let s = settings(
        RateLimitSettings { enable: true, per_second: 1, burst: 120 },
        security(),
    );
    s.validate().expect("valid settings");
    assert!(s.rate_limit.enable);
    assert_eq!(s.rate_limit.per_second, 1);
    assert_eq!(s.rate_limit.burst, 120);
    assert_eq!(s.security.content_security_policy, CSP);
}

#[test]
fn zero_burst_is_an_error_when_enabled() {
    let err = settings(RateLimitSettings { enable: true, per_second: 1, burst: 0 }, security())
        .validate()
        .expect_err("zero burst must fail");
    assert!(err.contains("at least 1"), "{err}");
}

#[test]
fn zero_per_second_is_an_error_when_enabled() {
    let err = settings(RateLimitSettings { enable: true, per_second: 0, burst: 5 }, security())
        .validate()
        .expect_err("zero refill must fail");
    assert_eq!(
        err,
        "config: settings.rate_limit.per_second and .burst must be at least 1 when enabled"
    );
}

#[test]
fn zero_values_are_fine_when_disabled() {
    settings(RateLimitSettings { enable: false, per_second: 0, burst: 0 }, security())
        .validate()
        .expect("disabled limiter needs no numbers");
}

#[test]
fn csp_without_nonce_placeholder_is_an_error() {
    let err = settings(
        rate_limit(),
        SecuritySettings { content_security_policy: "default-src 'self'".to_string() },
    )
    .validate()
    .expect_err("a CSP without {nonce} would never allow the inline scripts");
    assert!(err.contains("exactly once"), "{err}");
}

#[test]
fn csp_with_two_nonce_placeholders_is_an_error() {
    let err = settings(
        rate_limit(),
        SecuritySettings {
            content_security_policy: "script-src 'nonce-{nonce}' 'nonce-{nonce}'".to_string(),
        },
    )
    .validate()
    .expect_err("two placeholders");
    assert!(err.contains("exactly once"), "{err}");
}

#[test]
fn csp_with_control_characters_is_an_error() {
    let err = settings(
        rate_limit(),
        SecuritySettings {
            content_security_policy: "default-src 'self';\nscript-src 'nonce-{nonce}'"
                .to_string(),
        },
    )
    .validate()
    .expect_err("newline cannot go into a header");
    assert!(err.contains("header value"), "{err}");
}

#[test]
fn nightly_restart_is_off_when_the_block_is_missing() {
    let s = settings(rate_limit(), security());
    s.validate().expect("the block is optional");
    assert!(!s.nightly_restart.enable);
    assert_eq!(s.nightly_restart.hour, 3);
    assert_eq!(s.nightly_restart.zone, "UTC");
}

#[test]
fn nightly_restart_hour_out_of_range_is_an_error_when_enabled() {
    let mut s = settings(rate_limit(), security());
    s.nightly_restart = NightlyRestartSettings { enable: true, hour: 24, zone: "UTC".into() };
    let err = s.validate().expect_err("hour 24 must fail");
    assert!(err.contains("hour"), "{err}");
    assert_eq!(err, "config: settings.nightly_restart.hour must be 0 to 23, got 24");
    s.nightly_restart = NightlyRestartSettings { enable: false, hour: 24, zone: "UTC".into() };
    s.validate().expect("a disabled restart needs no valid hour");
}

#[test]
fn restart_time_is_the_hour() {
    let n = NightlyRestartSettings { enable: true, hour: 3, zone: "UTC".into() };
    let at = n.time().expect("03:00");
    assert_eq!(at.secs, 3 * 3600);
    assert_eq!(at.nanos, 0);
    let late = NightlyRestartSettings { enable: true, hour: 24, zone: "UTC".into() };
    assert!(late.time().is_none());
}

#[test]
fn first_failing_block_is_reported() {
    let s = settings(
        RateLimitSettings { enable: true, per_second: 0, burst: 0 },
        SecuritySettings { content_security_policy: "nothing".into() },
    );
    let err = s.validate().expect_err("both blocks fail");
    assert!(err.contains("rate_limit"), "{err}");
}

#[test]
fn missing_block_is_an_error() {
    let err = Settings::from_block(SettingsBlock::Missing).expect_err("must fail");
    assert!(err.contains("missing"), "{err}");
}

#[test]
fn parser_errors_are_reported_with_the_block() {
    let err = Settings::from_block(SettingsBlock::Invalid("unknown field `x`".into()))
        .expect_err("must fail");
    assert_eq!(err, "config: invalid `settings:` block: unknown field `x`");
}

#[test]
fn parsed_block_is_validated() {
    let ok = Settings::from_block(SettingsBlock::Parsed(settings(rate_limit(), security())))
        .expect("valid");
    assert_eq!(ok.rate_limit.burst, 5);
    let bad = settings(RateLimitSettings { enable: true, per_second: 1, burst: 0 }, security());
    assert!(Settings::from_block(SettingsBlock::Parsed(bad)).is_err());
}
