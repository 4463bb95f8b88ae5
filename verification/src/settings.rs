//! Typed view of the `settings:` block in `config/<env>.yaml`, and the
//! checks that refuse a nonsensical value at boot.
//!
//! The block is read into these types by the application (a missing block
//! or an unknown key fails there); everything the types themselves must
//! satisfy is checked here, once, so a typo in production config is a loud
//! failure rather than a silently disabled limit.

use vstd::prelude::*;

use crate::clock::LocalTime;
use crate::header::{check_header_value, header_value_ok, invalid_header_text};
use crate::render::{csp_text, NONCE_PLACEHOLDER};
use crate::text::{
    count_matches, count_occurrences, decimal, push_decimal, push_str, replace,
};

verus! {

broadcast use vstd::string::group_string_axioms;

/// The whole `settings:` block.
#[derive(Clone, Debug)]
pub struct Settings {
    pub rate_limit: RateLimitSettings,
    pub security: SecuritySettings,
    /// Optional in the config: a config without the block has no nightly
    /// restart.
    pub nightly_restart: NightlyRestartSettings,
}

/// Headers the app sets itself, as opposed to the framework's
/// `secure_headers` middleware, whose static values live under
/// `server.middlewares`.
#[derive(Clone, Debug)]
pub struct SecuritySettings {
    /// Content-Security-Policy for rendered pages. Must contain `{nonce}`
    /// once; the page renderer replaces it per request.
    pub content_security_policy: String,
}

/// Token bucket per visitor IP on every route (static assets are exempt).
#[derive(Clone, Copy, Debug)]
pub struct RateLimitSettings {
    pub enable: bool,
    /// Seconds per replenished token: 1 means a sustained 60 requests/minute.
    pub per_second: u64,
    /// Bucket size: how many requests a visitor may make at once before the
    /// sustained rate applies.
    pub burst: u32,
}

/// Nightly restart: the server stops itself once a day at `hour` o'clock in
/// `zone` and the service manager starts it again.
#[derive(Clone, Debug)]
pub struct NightlyRestartSettings {
    pub enable: bool,
    /// Hour of the day, 0 to 23, in `zone`.
    pub hour: u32,
    /// IANA zone name (`UTC`, `Europe/Zagreb`), as read from the config.
    pub zone: String,
}

pub open spec fn rate_limit_error_text() -> Seq<char> {
    "config: settings.rate_limit.per_second and .burst must be at least 1 when enabled"@
}

pub open spec fn csp_count_error_text() -> Seq<char> {
    "config: settings.security.content_security_policy must contain `{nonce}` exactly once"@
}

pub open spec fn csp_header_error_text() -> Seq<char> {
    "config: settings.security.content_security_policy is not a valid header value: "@
        + invalid_header_text()
}

pub open spec fn hour_error_text(hour: u32) -> Seq<char> {
    "config: settings.nightly_restart.hour must be 0 to 23, got "@ + decimal(hour as nat)
}

impl RateLimitSettings {
    /// An enabled limiter needs a refill period and a bucket of at least 1.
    pub open spec fn spec_valid(self) -> bool {
        self.enable ==> self.per_second >= 1 && self.burst >= 1
    }

    /// Refuses an enabled limiter with a zero refill period or bucket.
    pub fn validate(&self) -> (r: Result<(), String>)
        ensures
            r is Ok <==> self.spec_valid(),
            r is Ok <==> (!self.enable || (self.per_second >= 1 && self.burst >= 1)),
            r matches Err(m) ==> m@ == rate_limit_error_text(),
    {
        if self.enable && (self.per_second == 0 || self.burst == 0) {
            proof {
                reveal_strlit(
                    "config: settings.rate_limit.per_second and .burst must be at least 1 when enabled",
                );
            }
            return Err(
                String::from_str(
                    "config: settings.rate_limit.per_second and .burst must be at least 1 when enabled",
                ),
            );
        }
        Ok(())
    }
}

impl SecuritySettings {
    /// The template holds `{nonce}` exactly once and, with a stand-in nonce,
    /// forms a valid header value.
    pub open spec fn spec_valid(self) -> bool {
        &&& count_matches(self.content_security_policy@, NONCE_PLACEHOLDER@) == 1
        &&& header_value_ok(csp_text(self.content_security_policy@, "x"@))
    }

    /// Checks the policy template: `{nonce}` exactly once, and a valid
    /// header value once filled in. Done once at boot, so a bad template
    /// fails the start instead of every page.
    pub fn validate(&self) -> (r: Result<(), String>)
        ensures
            r is Ok <==> self.spec_valid(),
            r matches Err(m) ==> m@ == if count_matches(
                self.content_security_policy@,
                NONCE_PLACEHOLDER@,
            ) != 1 {
                csp_count_error_text()
            } else {
                csp_header_error_text()
            },
    {
        proof {
            reveal_strlit("{nonce}");
            reveal_strlit("x");
        }
        let template = self.content_security_policy.as_str();
        if count_occurrences(template, NONCE_PLACEHOLDER) != 1 {
            proof {
                reveal_strlit(
                    "config: settings.security.content_security_policy must contain `{nonce}` exactly once",
                );
            }
            return Err(
                String::from_str(
                    "config: settings.security.content_security_policy must contain `{nonce}` exactly once",
                ),
            );
        }
        let filled = replace(template, NONCE_PLACEHOLDER, "x");
        match check_header_value(filled.as_str()) {
            Ok(_) => Ok(()),
            Err(e) => {
                let mut message = String::from_str(
                    "config: settings.security.content_security_policy is not a valid header value: ",
                );
                push_str(&mut message, e.as_str());
                proof {
                    reveal_strlit(
                        "config: settings.security.content_security_policy is not a valid header value: ",
                    );
                }
                Err(message)
            },
        }
    }
}

impl NightlyRestartSettings {
    /// An enabled restart names an hour of the day.
    pub open spec fn spec_valid(self) -> bool {
        self.enable ==> self.hour <= 23
    }

    /// The restart as a time of day, `None` for an hour out of range.
    pub open spec fn spec_time(self) -> Option<LocalTime> {
        if self.hour < 24 {
            Some(LocalTime { secs: (self.hour * 3600) as u32, nanos: 0 })
        } else {
            None
        }
    }

    /// Refuses an enabled restart whose hour is not an hour of the day; a
    /// disabled one needs no valid hour.
    pub fn validate(&self) -> (r: Result<(), String>)
        ensures
            r is Ok <==> self.spec_valid(),
            r is Ok <==> (!self.enable || self.hour <= 23),
            r matches Err(m) ==> m@ == hour_error_text(self.hour),
    {
        if self.enable && self.hour > 23 {
            let mut message = String::from_str(
                "config: settings.nightly_restart.hour must be 0 to 23, got ",
            );
            push_decimal(&mut message, self.hour as u64);
            proof {
                reveal_strlit("config: settings.nightly_restart.hour must be 0 to 23, got ");
            }
            return Err(message);
        }
        Ok(())
    }

    /// The restart as a time of day. `None` only for an hour out of range,
    /// which [`Self::validate`] rejects at boot.
    pub fn time(&self) -> (t: Option<LocalTime>)
        ensures
            t == self.spec_time(),
            t matches Some(at) ==> at.wf(),
    {
        if self.hour < 24 {
            Some(LocalTime { secs: self.hour * 3600, nanos: 0 })
        } else {
            None
        }
    }
}

impl Default for NightlyRestartSettings {
    /// Off, at 03:00 UTC.
    fn default() -> (d: Self)
        ensures
            !d.enable,
            d.hour == 3,
            d.zone@ == "UTC"@,
    {
        proof {
            reveal_strlit("UTC");
        }
        NightlyRestartSettings { enable: false, hour: 3, zone: String::from_str("UTC") }
    }
}

impl Settings {
    pub open spec fn spec_valid(self) -> bool {
        &&& self.rate_limit.spec_valid()
        &&& self.security.spec_valid()
        &&& self.nightly_restart.spec_valid()
    }

    /// The first refusal among the three blocks, in the order rate limit,
    /// security, nightly restart.
    pub open spec fn spec_first_error(self) -> Seq<char> {
        if !self.rate_limit.spec_valid() {
            rate_limit_error_text()
        } else if !self.security.spec_valid() {
            if count_matches(self.security.content_security_policy@, NONCE_PLACEHOLDER@) != 1 {
                csp_count_error_text()
            } else {
                csp_header_error_text()
            }
        } else {
            hour_error_text(self.nightly_restart.hour)
        }
    }

    /// Validates every block of a parsed `settings:` block.
    ///
    /// # Errors
    /// The first block that fails its check, with its message.
    pub fn validate(&self) -> (r: Result<(), String>)
        ensures
            r is Ok <==> self.spec_valid(),
            r matches Err(m) ==> m@ == self.spec_first_error(),
    {
        self.rate_limit.validate()?;
        self.security.validate()?;
        self.nightly_restart.validate()?;
        Ok(())
    }
}

/// What reading the `settings:` block of the config gave.
#[derive(Clone, Debug)]
pub enum SettingsBlock {
    /// The config has no `settings:` block.
    Missing,
    /// The block did not parse into [`Settings`] (an unknown key, a missing
    /// block, an unknown zone name); the parser's message.
    Invalid(String),
    /// The parsed block, not yet validated.
    Parsed(Settings),
}

pub open spec fn missing_block_text() -> Seq<char> {
    "config: `settings:` block is missing (settings.rate_limit and settings.security are required)"@
}

pub open spec fn invalid_block_text(e: Seq<char>) -> Seq<char> {
    "config: invalid `settings:` block: "@ + e
}

impl Settings {
    /// Turns the outcome of reading the `settings:` block into validated
    /// settings.
    ///
    /// # Errors
    /// The block is missing, did not parse, or fails validation.
    pub fn from_block(block: SettingsBlock) -> (r: Result<Settings, String>)
        ensures
            match (block, r) {
                (SettingsBlock::Missing, Err(m)) => m@ == missing_block_text(),
                (SettingsBlock::Invalid(e), Err(m)) => m@ == invalid_block_text(e@),
                (SettingsBlock::Parsed(s), Ok(t)) => s.spec_valid() && t == s,
                (SettingsBlock::Parsed(s), Err(m)) => !s.spec_valid() && m@ == s.spec_first_error(),
                _ => false,
            },
    {
        match block {
            SettingsBlock::Missing => {
                proof {
                    reveal_strlit(
                        "config: `settings:` block is missing (settings.rate_limit and settings.security are required)",
                    );
                }
                Err(
                    String::from_str(
                        "config: `settings:` block is missing (settings.rate_limit and settings.security are required)",
                    ),
                )
            },
            SettingsBlock::Invalid(e) => {
                let mut message = String::from_str("config: invalid `settings:` block: ");
                push_str(&mut message, e.as_str());
                proof {
                    reveal_strlit("config: invalid `settings:` block: ");
                }
                Err(message)
            },
            SettingsBlock::Parsed(settings) => {
                settings.validate()?;
                Ok(settings)
            },
        }
    }
}

/// Every hour of the day, midnight included, is a valid restart hour, and
/// only an enabled restart at an hour past 23 is refused; as a time of day
/// the hour `h` is `h * 3600` seconds after midnight.
pub proof fn lemma_every_hour_of_the_day_is_valid(restart: NightlyRestartSettings)
    ensures
        restart.hour <= 23 ==> restart.spec_valid(),
        !restart.enable ==> restart.spec_valid(),
        restart.enable && restart.hour > 23 ==> !restart.spec_valid(),
        restart.hour <= 23 ==> restart.spec_time() == Some(
            LocalTime { secs: (restart.hour * 3600) as u32, nanos: 0 },
        ),
        restart.hour > 23 ==> restart.spec_time() is None,
{
}

/// A limiter is refused only when it is enabled with a zero refill period
/// or a zero bucket; any positive numbers, or a disabled limiter, pass.
pub proof fn lemma_rate_limit_refused_only_for_zero(limits: RateLimitSettings)
    ensures
        !limits.enable ==> limits.spec_valid(),
        limits.per_second >= 1 && limits.burst >= 1 ==> limits.spec_valid(),
        limits.enable && (limits.per_second == 0 || limits.burst == 0) ==> !limits.spec_valid(),
{
}

/// A policy template is refused when it holds `{nonce}` other than exactly
/// once, and accepted when it holds it once and some nonce that is a valid
/// header text fills it into a valid header value.
pub proof fn lemma_template_check(security: SecuritySettings, nonce: Seq<char>)
    ensures
        count_matches(security.content_security_policy@, NONCE_PLACEHOLDER@) != 1
            ==> !security.spec_valid(),
        count_matches(security.content_security_policy@, NONCE_PLACEHOLDER@) == 1
            && header_value_ok(nonce) && header_value_ok(
            csp_text(security.content_security_policy@, nonce),
        ) ==> security.spec_valid(),
{
    reveal_strlit("x");
    if header_value_ok(nonce) && header_value_ok(
        csp_text(security.content_security_policy@, nonce),
    ) {
        crate::render::lemma_checked_template_accepts_every_valid_nonce(
            security.content_security_policy@,
            nonce,
            "x"@,
        );
    }
}

/// The blocks are checked in the order rate limit, security, nightly
/// restart, and the first one that fails is the one reported.
pub proof fn lemma_first_failing_block_is_reported(settings: Settings)
    ensures
        !settings.rate_limit.spec_valid() ==> settings.spec_first_error()
            == rate_limit_error_text(),
        settings.rate_limit.spec_valid() && !settings.security.spec_valid() ==> (
        settings.spec_first_error() == csp_count_error_text() || settings.spec_first_error()
            == csp_header_error_text()),
        settings.rate_limit.spec_valid() && settings.security.spec_valid()
            && !settings.nightly_restart.spec_valid() ==> settings.spec_first_error()
            == hour_error_text(settings.nightly_restart.hour),
        settings.spec_valid() <==> settings.rate_limit.spec_valid()
            && settings.security.spec_valid() && settings.nightly_restart.spec_valid(),
{
}

/// What the boot check guarantees the rest of the app: an enabled limiter
/// can be built (refill period and bucket at least 1), an enabled restart
/// has a time of day, and every page policy built from the template with a
/// nonce that is a valid header text is a valid header.
pub proof fn lemma_validated_settings_are_usable(settings: Settings, nonce: Seq<char>)
    requires
        settings.spec_valid(),
        header_value_ok(nonce),
    ensures
        settings.rate_limit.enable ==> settings.rate_limit.per_second >= 1
            && settings.rate_limit.burst >= 1,
        settings.nightly_restart.enable ==> settings.nightly_restart.spec_time() is Some,
        header_value_ok(csp_text(settings.security.content_security_policy@, nonce)),
{
    crate::render::lemma_checked_template_accepts_every_valid_nonce(
        settings.security.content_security_policy@,
        "x"@,
        nonce,
    );
}

} // verus!
