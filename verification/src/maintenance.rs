//! Nightly restart: on staging and production the server stops itself once
//! a day and the service manager starts it again.
//!
//! The decisions live here: whether a restart is scheduled at all, the next
//! restart time after "now", how a wall-clock time is resolved across the
//! daylight-saving edges, and how long to sleep. The application runs the
//! loop: it reads the clock, sleeps as told, and stops the process.
//!
//! Daylight saving is handled: a time that does not exist on the
//! spring-forward night makes the loop wait and look again, and a time that
//! happens twice in autumn picks the later instance.

use vstd::prelude::*;

use chrono::{LocalResult, NaiveDate, NaiveTime, Offset, TimeZone};
use chrono_tz::Tz;
use nix::errno::Errno;
use nix::sys::signal::{raise, Signal};

use crate::clock::{LocalDateTime, LocalTime, ZonedTime};
use crate::environment::{spec_is_local, Environment};
use crate::settings::NightlyRestartSettings;
use crate::text::{agrees, decimal, push_decimal, push_str};

verus! {

broadcast use vstd::string::group_string_axioms;

#[verifier::external_type_specification]
#[verifier::external_body]
pub struct ExErrno(Errno);

/// Development and test never restart, whatever the config says. A name the
/// framework does not know (`staging`) counts as deployed.
pub fn is_local(env: &Environment) -> (b: bool)
    ensures
        b == spec_is_local(*env),
        b <==> (*env is Development || *env is Test),
{
    match env {
        Environment::Development | Environment::Test => true,
        _ => false,
    }
}

/// What happens to the restart at boot.
#[derive(PartialEq, Eq, Structural, Clone, Copy, Debug)]
pub enum RestartSchedule {
    /// The block is off.
    Off,
    /// Enabled, but the environment is development or test.
    IgnoredLocally,
    /// Every day at `at` in the configured zone.
    Daily { at: LocalTime },
}

pub open spec fn bad_hour_text(hour: u32) -> Seq<char> {
    "settings.nightly_restart.hour "@ + decimal(hour as nat) + " is not an hour of the day"@
}

/// The restart decision at boot: off when disabled, ignored in development
/// and test, daily at the configured hour otherwise.
pub open spec fn spec_schedule(settings: NightlyRestartSettings, env: Environment) -> Result<
    RestartSchedule,
    Seq<char>,
> {
    if !settings.enable {
        Ok(RestartSchedule::Off)
    } else if spec_is_local(env) {
        Ok(RestartSchedule::IgnoredLocally)
    } else {
        match settings.spec_time() {
            Some(at) => Ok(RestartSchedule::Daily { at }),
            None => Err(bad_hour_text(settings.hour)),
        }
    }
}

/// Decides the restart at boot; the application logs the decision and
/// starts the loop for `Daily`.
///
/// # Errors
/// `hour` is not an hour of the day. Settings validation rejects that at
/// boot, so a booted app never sees this error.
pub fn schedule(settings: &NightlyRestartSettings, env: &Environment) -> (r: Result<
    RestartSchedule,
    String,
>)
    ensures
        agrees(r, spec_schedule(*settings, *env)),
        !settings.enable ==> r == Ok::<RestartSchedule, String>(RestartSchedule::Off),
        settings.enable && (*env is Development || *env is Test) ==> r == Ok::<
            RestartSchedule,
            String,
        >(RestartSchedule::IgnoredLocally),
        settings.enable && !(*env is Development) && !(*env is Test) && settings.hour <= 23 ==> r
            == Ok::<RestartSchedule, String>(
            RestartSchedule::Daily { at: LocalTime { secs: (settings.hour * 3600) as u32, nanos: 0 } },
        ),
        settings.enable && !(*env is Development) && !(*env is Test) && settings.hour > 23 ==> r
            is Err,
{
    if !settings.enable {
        return Ok(RestartSchedule::Off);
    }
    if is_local(env) {
        return Ok(RestartSchedule::IgnoredLocally);
    }
    match settings.time() {
        Some(at) => Ok(RestartSchedule::Daily { at }),
        None => {
            let mut message = String::from_str("settings.nightly_restart.hour ");
            push_decimal(&mut message, settings.hour as u64);
            push_str(&mut message, " is not an hour of the day");
            proof {
                reveal_strlit("settings.nightly_restart.hour ");
                reveal_strlit(" is not an hour of the day");
            }
            Err(message)
        },
    }
}

/// Every deployed environment (production, staging, any name that is not
/// development or test) with an enabled restart at an hour of the day gets a
/// daily restart at that hour; a disabled restart is off everywhere, an
/// enabled one is ignored in development and test, and only an hour past 23
/// is refused.
pub proof fn lemma_deployed_restarts_daily(settings: NightlyRestartSettings, env: Environment)
    ensures
        settings.enable && !(env is Development) && !(env is Test) && settings.hour <= 23
            ==> spec_schedule(settings, env) == Ok::<RestartSchedule, Seq<char>>(
            RestartSchedule::Daily { at: LocalTime { secs: (settings.hour * 3600) as u32, nanos: 0 } },
        ),
        !settings.enable ==> spec_schedule(settings, env) == Ok::<RestartSchedule, Seq<char>>(
            RestartSchedule::Off,
        ),
        settings.enable && (env is Development || env is Test) ==> spec_schedule(settings, env)
            == Ok::<RestartSchedule, Seq<char>>(RestartSchedule::IgnoredLocally),
        settings.enable && !(env is Development) && !(env is Test) && settings.hour > 23
            ==> spec_schedule(settings, env) is Err,
{
}

/// Development and test never get a daily restart, whatever the config
/// says, and settings that passed validation always schedule without error.
pub proof fn lemma_restart_only_when_deployed(settings: NightlyRestartSettings, env: Environment)
    ensures
        spec_is_local(env) ==> !(spec_schedule(settings, env) matches Ok(
            RestartSchedule::Daily { .. },
        )),
        settings.spec_valid() ==> spec_schedule(settings, env) is Ok,
{
}

/// The next `at` strictly after `now`: today if it is still ahead, otherwise
/// tomorrow.
pub open spec fn spec_next_restart(now: LocalDateTime, at: LocalTime) -> LocalDateTime {
    if now.time.spec_at_or_after(at) {
        LocalDateTime { day: (now.day + 1) as i32, time: at }
    } else {
        LocalDateTime { day: now.day, time: at }
    }
}

/// The next `at` strictly after `now`: today if it is still ahead, otherwise
/// tomorrow. Pure and zone-free.
pub fn next_restart_naive(now: LocalDateTime, at: LocalTime) -> (next: LocalDateTime)
    requires
        now.day < i32::MAX,
    ensures
        next == spec_next_restart(now, at),
{
    if now.time.at_or_after(&at) {
        LocalDateTime { day: now.day + 1, time: at }
    } else {
        LocalDateTime { day: now.day, time: at }
    }
}

/// The restart time is strictly after `now`, is the time `at`, and no
/// earlier date-time after `now` shows `at`.
pub proof fn lemma_next_restart_is_the_first_after(now: LocalDateTime, at: LocalTime, day: i32)
    requires
        now.day < i32::MAX,
        (LocalDateTime { day, time: at }).spec_is_after(now),
    ensures
        spec_next_restart(now, at).time == at,
        spec_next_restart(now, at).spec_is_after(now),
        spec_next_restart(now, at).day <= day,
{
}

/// The UTC offsets a zone gives a local date-time: none (it falls into the
/// spring-forward gap), one, or two in a fold, earliest instant first.
#[derive(PartialEq, Eq, Structural, Clone, Copy, Debug)]
pub enum LocalOffsets {
    Gap,
    Single(i32),
    Fold(i32, i32),
}

/// What `chrono_tz` answers for the local date-time (`day`, `secs`,
/// `nanos`) in the zone named `zone`.
pub uninterp spec fn zone_offsets(zone: Seq<char>, day: int, secs: int, nanos: int) -> LocalOffsets;

/// `TimeZone::from_local_datetime` of `chrono_tz::Tz`, for the zone named
/// `zone` and the date-time `local`, as offsets in seconds. The result is
/// the named `zone_offsets`; in a fold the earlier instant has the larger
/// offset (the zone's two local spans overlap only when the later offset
/// is smaller). A zone name `chrono_tz` does not know, or a date-time
/// `chrono` cannot represent, answers `Gap`, as `chrono` itself does for
/// times it cannot resolve.
#[verifier::external_body]
fn local_offsets(zone: &str, local: LocalDateTime) -> (r: LocalOffsets)
    ensures
        r == zone_offsets(zone@, local.day as int, local.time.secs as int, local.time.nanos as int),
        r matches LocalOffsets::Fold(earliest, latest) ==> earliest > latest,
{
    let Ok(tz) = zone.parse::<Tz>() else { return LocalOffsets::Gap };
    let date = NaiveDate::from_num_days_from_ce_opt(local.day);
    let time = NaiveTime::from_num_seconds_from_midnight_opt(local.time.secs, local.time.nanos);
    let (Some(date), Some(time)) = (date, time) else { return LocalOffsets::Gap };
    match tz.from_local_datetime(&date.and_time(time)) {
        LocalResult::Single(t) => LocalOffsets::Single(t.offset().fix().local_minus_utc()),
        LocalResult::Ambiguous(a, b) => {
            LocalOffsets::Fold(a.offset().fix().local_minus_utc(), b.offset().fix().local_minus_utc())
        },
        LocalResult::None => LocalOffsets::Gap,
    }
}

/// The instant a local date-time stands for, given the offsets its zone
/// has there: a normal time is itself, a time that happens twice is the
/// later instance, and a time that does not exist is `None`.
pub open spec fn spec_pick_instance(naive: LocalDateTime, offsets: LocalOffsets) -> Option<ZonedTime> {
    match offsets {
        LocalOffsets::Single(offset) => Some(ZonedTime { local: naive, offset_secs: offset }),
        LocalOffsets::Fold(_, later) => Some(ZonedTime { local: naive, offset_secs: later }),
        LocalOffsets::Gap => None,
    }
}

/// Decides the daylight-saving edges for `naive`, given its offsets.
pub fn pick_instance(naive: LocalDateTime, offsets: LocalOffsets) -> (r: Option<ZonedTime>)
    ensures
        r == spec_pick_instance(naive, offsets),
        offsets matches LocalOffsets::Single(o) ==> r == Some(
            ZonedTime { local: naive, offset_secs: o },
        ),
        offsets matches LocalOffsets::Fold(e, l) ==> r == Some(
            ZonedTime { local: naive, offset_secs: l },
        ),
        offsets is Gap ==> r is None,
{
    match offsets {
        LocalOffsets::Single(offset) => Some(ZonedTime { local: naive, offset_secs: offset }),
        LocalOffsets::Fold(_, later) => Some(ZonedTime { local: naive, offset_secs: later }),
        LocalOffsets::Gap => None,
    }
}

/// A date-time keeps the zone's own offset: with one offset it resolves to
/// exactly that offset, in a fold to the second (later) of the two, and in
/// the gap to nothing; a resolved time always shows the wall-clock time it
/// was asked for.
pub proof fn lemma_resolution_keeps_the_zone_offset(naive: LocalDateTime, offsets: LocalOffsets)
    ensures
        offsets matches LocalOffsets::Single(o) ==> spec_pick_instance(naive, offsets) == Some(
            ZonedTime { local: naive, offset_secs: o },
        ),
        offsets matches LocalOffsets::Fold(e, l) ==> spec_pick_instance(naive, offsets) == Some(
            ZonedTime { local: naive, offset_secs: l },
        ),
        offsets is Gap <==> spec_pick_instance(naive, offsets) is None,
{
}

/// A resolved time shows the wall-clock time it was asked for, and of two
/// instances in a fold it is the later one.
pub proof fn lemma_picked_instance_is_the_later(naive: LocalDateTime, offsets: LocalOffsets)
    requires
        offsets matches LocalOffsets::Fold(earliest, latest) ==> earliest > latest,
    ensures
        spec_pick_instance(naive, offsets) matches Some(z) ==> z.local == naive,
        offsets matches LocalOffsets::Fold(earliest, latest) ==> spec_pick_instance(
            naive,
            offsets,
        )->0.utc_nanos() > (ZonedTime { local: naive, offset_secs: earliest }).utc_nanos(),
{
}

/// A wall-clock time in the zone named `zone`, with the daylight-saving
/// edges decided: a normal time is itself, a time that happens twice
/// (autumn) is the later instance, and a time that does not exist (spring)
/// is `None`, so the caller can wait and retry once the clock has moved
/// past the gap.
pub fn resolve_local_dt(naive: LocalDateTime, zone: &str) -> (r: Option<ZonedTime>)
    ensures
        r == spec_pick_instance(
            naive,
            zone_offsets(zone@, naive.day as int, naive.time.secs as int, naive.time.nanos as int),
        ),
        zone_offsets(zone@, naive.day as int, naive.time.secs as int, naive.time.nanos as int) matches LocalOffsets::Fold(
            earliest,
            latest,
        ) ==> earliest > latest,
{
    let offsets = local_offsets(zone, naive);
    pick_instance(naive, offsets)
}

/// How long the restart loop waits before it looks at the clock again when
/// tonight's restart time does not exist, and when the target is not ahead.
pub const RETRY_SECS: u64 = 3600;

/// What the restart loop does next.
#[derive(PartialEq, Eq, Structural, Clone, Copy, Debug)]
pub enum RestartStep {
    /// Tonight's restart time falls into the spring-forward gap: sleep
    /// `RETRY_SECS` and look again.
    LookAgainLater,
    /// Sleep this long, then stop the process at `target`.
    SleepThenStop { target: ZonedTime, secs: u64, nanos: u32 },
}

/// The wait from `now` until `target` as whole seconds and nanoseconds, or
/// `RETRY_SECS` when `target` is not ahead of `now`.
pub open spec fn spec_wait(now: ZonedTime, target: ZonedTime) -> (u64, u32) {
    let d: int = target.utc_nanos() - now.utc_nanos();
    if d < 0 {
        (RETRY_SECS, 0)
    } else {
        ((d / 1_000_000_000) as u64, (d % 1_000_000_000) as u32)
    }
}

/// The next step of the restart loop.
pub open spec fn spec_plan_restart(zone: Seq<char>, now: ZonedTime, at: LocalTime) -> RestartStep {
    let naive = spec_next_restart(now.local, at);
    match spec_pick_instance(
        naive,
        zone_offsets(zone, naive.day as int, naive.time.secs as int, naive.time.nanos as int),
    ) {
        None => RestartStep::LookAgainLater,
        Some(target) => RestartStep::SleepThenStop {
            target,
            secs: spec_wait(now, target).0,
            nanos: spec_wait(now, target).1,
        },
    }
}

/// The wait from `now` until `target`.
fn wait_until(now: ZonedTime, target: ZonedTime) -> (w: (u64, u32))
    requires
        now.local.wf(),
        target.local.wf(),
        target.local.day <= now.local.day + 1,
    ensures
        w == spec_wait(now, target),
{
    let target_secs: i128 = target.local.day as i128 * 86400i128
        + target.local.time.secs as i128 - target.offset_secs as i128;
    let now_secs: i128 = now.local.day as i128 * 86400i128 + now.local.time.secs as i128
        - now.offset_secs as i128;
    let d: i128 = (target_secs - now_secs) * 1_000_000_000 + target.local.time.nanos as i128
        - now.local.time.nanos as i128;
    proof {
        assert(d == target.utc_nanos() - now.utc_nanos());
    }
    if d < 0 {
        (RETRY_SECS, 0)
    } else {
        proof {
            assert(d / 1_000_000_000 < 0x1_0000_0000_0000_0000) by (nonlinear_arith)
                requires
                    0 <= d <= (3 * 86400 + 0x1_0000_0000 + 4) * 1_000_000_000,
            ;
        }
        ((d / 1_000_000_000) as u64, (d % 1_000_000_000) as u32)
    }
}

/// One round of the restart loop: the next restart time after `now` (a
/// date-time in the zone named `zone`), resolved in the zone, and the wait
/// until it.
pub fn plan_restart(zone: &str, now: ZonedTime, at: LocalTime) -> (step: RestartStep)
    requires
        now.local.wf(),
        at.wf(),
        now.local.day < i32::MAX,
        now.local.time.nanos < 1_000_000_000,
        at.nanos < 1_000_000_000,
    ensures
        step == spec_plan_restart(zone@, now, at),
        zone_offsets(
            zone@,
            spec_next_restart(now.local, at).day as int,
            spec_next_restart(now.local, at).time.secs as int,
            spec_next_restart(now.local, at).time.nanos as int,
        ) matches LocalOffsets::Fold(earliest, latest) ==> earliest > latest,
{
    let naive = next_restart_naive(now.local, at);
    match resolve_local_dt(naive, zone) {
        None => RestartStep::LookAgainLater,
        Some(target) => {
            let (secs, nanos): (u64, u32) = wait_until(now, target);
            RestartStep::SleepThenStop { target, secs, nanos }
        },
    }
}

/// A round of the restart loop never stops the process when that night's
/// restart time falls into the spring-forward gap, and only then does it
/// look again later. Otherwise it stops at the next restart time after
/// `now` on the wall clock, resolved in the zone, and not before that
/// instant: it sleeps exactly until the target when the target lies ahead,
/// and an hour when it does not.
pub proof fn lemma_restart_round(zone: Seq<char>, now: ZonedTime, at: LocalTime)
    requires
        now.local.wf(),
        at.wf(),
        now.local.day < i32::MAX,
    ensures
        (spec_plan_restart(zone, now, at) is LookAgainLater) <==> zone_offsets(
            zone,
            spec_next_restart(now.local, at).day as int,
            spec_next_restart(now.local, at).time.secs as int,
            spec_next_restart(now.local, at).time.nanos as int,
        ) is Gap,
        spec_plan_restart(zone, now, at) matches RestartStep::SleepThenStop { target, secs, nanos }
            ==> {
            &&& target.local == spec_next_restart(now.local, at)
            &&& target.local.spec_is_after(now.local)
            &&& nanos < 1_000_000_000
            &&& now.utc_nanos() + secs * 1_000_000_000 + nanos >= target.utc_nanos()
            &&& target.utc_nanos() >= now.utc_nanos() ==> now.utc_nanos() + secs * 1_000_000_000
                + nanos == target.utc_nanos()
            &&& target.utc_nanos() < now.utc_nanos() ==> secs == RETRY_SECS && nanos == 0
        },
{
    let naive = spec_next_restart(now.local, at);
    let offsets = zone_offsets(
        zone,
        naive.day as int,
        naive.time.secs as int,
        naive.time.nanos as int,
    );
    if let Some(target) = spec_pick_instance(naive, offsets) {
        let d: int = target.utc_nanos() - now.utc_nanos();
        if d >= 0 {
            assert(d <= (3 * 86400 + 0x1_0000_0000 + 4) * 1_000_000_000);
            let q: int = d / 1_000_000_000;
            let r: int = d % 1_000_000_000;
            assert(q * 1_000_000_000 + r == d && 0 <= r < 1_000_000_000 && 0 <= q
                < 0x1_0000_0000_0000_0000) by (nonlinear_arith)
                requires
                    0 <= d <= (3 * 86400 + 0x1_0000_0000 + 4) * 1_000_000_000,
                    q == d / 1_000_000_000,
                    r == d % 1_000_000_000,
            ;
            assert(spec_wait(now, target).0 == q);
            assert(spec_wait(now, target).1 == r);
        }
    }
}

/// How the restart loop ends once it has asked the process to stop.
#[derive(PartialEq, Eq, Structural, Clone, Copy, Debug)]
pub enum LoopEnd {
    /// The framework's graceful shutdown is under way: the loop returns.
    Done,
    /// No signal could be raised: the process exits at once, with status 0
    /// so that the service manager starts it again.
    ExitNow,
}

/// The restart loop's last decision: return when the stop signal was
/// raised, exit directly when it was not.
pub fn after_stop(raised: bool) -> (end: LoopEnd)
    ensures
        end == (if raised {
            LoopEnd::Done
        } else {
            LoopEnd::ExitNow
        }),
{
    if raised {
        LoopEnd::Done
    } else {
        LoopEnd::ExitNow
    }
}

/// The signal the process stops itself with.
#[derive(PartialEq, Eq, Structural, Clone, Copy, Debug)]
pub enum StopSignal {
    /// SIGTERM.
    Term,
}

/// How the process asks itself to stop: the way `systemctl stop` would,
/// with SIGTERM, so the framework's graceful shutdown runs.
pub fn stop_signal() -> (s: StopSignal)
    ensures
        s == StopSignal::Term,
{
    StopSignal::Term
}

/// `nix::sys::signal::raise`: asks the operating system to deliver `sig` to
/// the calling thread. Whether that succeeds depends on the platform, so
/// nothing is stated about the outcome.
#[verifier::external_body]
fn raise_signal(sig: StopSignal) -> Result<(), Errno> {
    let signal = match sig {
        StopSignal::Term => Signal::SIGTERM,
    };
    raise(signal)
}

/// Whether raising the signal succeeded, from what `raise` returned.
pub fn signal_raised(outcome: &Result<(), Errno>) -> (raised: bool)
    ensures
        raised == outcome is Ok,
{
    match outcome {
        Ok(()) => true,
        Err(_) => false,
    }
}

/// Asks the process to stop: raises [`stop_signal`] once and returns
/// whether that succeeded (see [`signal_raised`]); when it did not, the
/// caller exits directly. The outcome comes from the operating system, so
/// the result is not stated.
pub fn stop_gracefully() -> bool {
    let signal = stop_signal();
    signal_raised(&raise_signal(signal))
}

} // verus!
