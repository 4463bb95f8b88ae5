use chrono::{Datelike, NaiveDateTime, Timelike};
use saas_starter::clock::{LocalDateTime, LocalTime, ZonedTime};
use saas_starter::maintenance::{
    is_local, next_restart_naive, pick_instance, plan_restart, resolve_local_dt, schedule,
    after_stop, signal_raised, stop_signal, LocalOffsets, LoopEnd, RestartSchedule, RestartStep, StopSignal,
};
use saas_starter::{Environment, NightlyRestartSettings};

const ZONE: &str = "Europe/Zagreb";

fn at3() -> LocalTime {
    LocalTime { secs: 3 * 3600, nanos: 0 }
}

fn naive(s: &str) -> LocalDateTime {
    let n = NaiveDateTime::parse_from_str(s, "%Y-%m-%d %H:%M:%S").expect("a valid test literal");
    LocalDateTime {
        day: n.date().num_days_from_ce(),
        time: LocalTime { secs: n.time().num_seconds_from_midnight(), nanos: n.time().nanosecond() },
    }
}

#[test]
fn before_the_hour_restarts_today() {
    assert_eq!(
        next_restart_naive(naive("2026-04-30 00:30:00"), at3()),
        naive("2026-04-30 03:00:00")
    );
}

#[test]
fn at_the_hour_restarts_tomorrow() {
    assert_eq!(
        next_restart_naive(naive("2026-04-30 03:00:00"), at3()),
        naive("2026-05-01 03:00:00")
    );
}

#[test]
fn after_the_hour_restarts_tomorrow() {
    assert_eq!(
        next_restart_naive(naive("2026-04-30 14:00:00"), at3()),
        naive("2026-05-01 03:00:00")
    );
}

#[test]
fn new_year_rolls_the_date_over() {
    assert_eq!(
        next_restart_naive(naive("2026-12-31 23:59:59"), at3()),
        naive("2027-01-01 03:00:00")
    );
}

#[test]
fn normal_time_resolves_to_itself() {
    let n = naive("2026-06-15 12:00:00");
    let resolved = resolve_local_dt(n, ZONE).expect("a normal time resolves");
    assert_eq!(resolved.local, n);
    assert_eq!(resolved.offset_secs, 2 * 3600, "CEST in June");
}

#[test]
fn spring_forward_gap_is_none() {
    assert!(resolve_local_dt(naive("2026-03-29 02:30:00"), ZONE).is_none());
}

#[test]
fn restart_time_exists_on_the_spring_forward_night() {
    let resolved = resolve_local_dt(naive("2026-03-29 03:00:00"), ZONE).expect("03:00 exists");
    assert_eq!(resolved.offset_secs, 2 * 3600, "already CEST");
}

#[test]
fn fall_back_picks_the_later_instance() {
    let n = naive("2026-10-25 02:30:00");
    let resolved = resolve_local_dt(n, ZONE).expect("an ambiguous time resolves");
    assert_eq!(resolved.local, n);
    assert_eq!(resolved.offset_secs, 3600, "the later one is CET");
}

#[test]
fn utc_has_no_daylight_saving() {
    let n = naive("2026-10-25 02:30:00");
    assert_eq!(resolve_local_dt(n, "UTC").expect("UTC").offset_secs, 0);
}

#[test]
fn pick_instance_decides_each_case() {
    let n = naive("2026-10-25 02:30:00");
    assert_eq!(
        pick_instance(n, LocalOffsets::Fold(7200, 3600)),
        Some(ZonedTime { local: n, offset_secs: 3600 })
    );
    assert_eq!(
        pick_instance(n, LocalOffsets::Single(0)),
        Some(ZonedTime { local: n, offset_secs: 0 })
    );
    assert_eq!(pick_instance(n, LocalOffsets::Gap), None);
}

#[test]
fn local_environments_never_restart() {
    assert!(is_local(&Environment::Development));
    assert!(is_local(&Environment::Test));
    assert!(!is_local(&Environment::Production));
    assert!(!is_local(&Environment::Any("staging".to_string())));
}

fn restart(enable: bool, hour: u32) -> NightlyRestartSettings {
    NightlyRestartSettings { enable, hour, zone: "UTC".to_string() }
}

#[test]
fn schedule_follows_settings_and_environment() {
    assert_eq!(schedule(&restart(false, 3), &Environment::Production), Ok(RestartSchedule::Off));
    assert_eq!(
        schedule(&restart(true, 3), &Environment::Development),
        Ok(RestartSchedule::IgnoredLocally)
    );
    assert_eq!(
        schedule(&restart(true, 3), &Environment::Any("staging".into())),
        Ok(RestartSchedule::Daily { at: at3() })
    );
    let err = schedule(&restart(true, 24), &Environment::Production).expect_err("bad hour");
    assert_eq!(err, "settings.nightly_restart.hour 24 is not an hour of the day");
}

#[test]
fn plan_sleeps_until_the_restart() {
    // 00:30 CEST in Zagreb; the restart is 2.5 hours later.
    let now = ZonedTime { local: naive("2026-04-30 00:30:00"), offset_secs: 7200 };
    match plan_restart(ZONE, now, at3()) {
        RestartStep::SleepThenStop { target, secs, nanos } => {
            assert_eq!(target.local, naive("2026-04-30 03:00:00"));
            assert_eq!(secs, 9000);
            assert_eq!(nanos, 0);
        }
        other => panic!("unexpected {other:?}"),
    }
}

#[test]
fn plan_counts_the_lost_hour_of_the_spring_forward_night() {
    // 00:30 CET on 2026-03-29; 03:00 that night is already CEST.
    let now = ZonedTime { local: naive("2026-03-29 00:30:00"), offset_secs: 3600 };
    match plan_restart(ZONE, now, at3()) {
        RestartStep::SleepThenStop { secs, .. } => assert_eq!(secs, 3600 + 1800),
        other => panic!("unexpected {other:?}"),
    }
}

#[test]
fn plan_looks_again_when_the_time_does_not_exist() {
    let at = LocalTime { secs: 2 * 3600 + 1800, nanos: 0 };
    let now = ZonedTime { local: naive("2026-03-29 00:30:00"), offset_secs: 3600 };
    assert_eq!(plan_restart(ZONE, now, at), RestartStep::LookAgainLater);
}

#[test]
fn plan_waits_with_nanoseconds() {
    let mut local = naive("2026-04-30 02:59:59");
    local.time.nanos = 250_000_000;
    let now = ZonedTime { local, offset_secs: 7200 };
    match plan_restart(ZONE, now, at3()) {
        RestartStep::SleepThenStop { secs, nanos, .. } => {
            assert_eq!(secs, 0);
            assert_eq!(nanos, 750_000_000);
        }
        other => panic!("unexpected {other:?}"),
    }
}

#[test]
fn signal_outcome_decides_the_stop() {
    assert!(signal_raised(&Ok(())));
    assert!(!signal_raised(&Err(nix::errno::Errno::EPERM)));
}

#[test]
fn the_process_stops_itself_with_sigterm() {
    assert_eq!(stop_signal(), StopSignal::Term);
}

fn utc_secs(t: &ZonedTime) -> i64 {
    i64::from(t.local.day) * 86400 + i64::from(t.local.time.secs) - i64::from(t.offset_secs)
}

#[test]
fn a_round_sleeps_until_the_later_instance_on_the_fall_back_night() {
    // 00:30 CEST on 2026-10-25; 02:30 happens twice that night, the
    // restart takes the second one, in CET: three hours from now.
    let at = LocalTime { secs: 2 * 3600 + 1800, nanos: 0 };
    let now = ZonedTime { local: naive("2026-10-25 00:30:00"), offset_secs: 7200 };
    match plan_restart(ZONE, now, at) {
        RestartStep::SleepThenStop { target, secs, nanos } => {
            assert_eq!(target.local, naive("2026-10-25 02:30:00"));
            assert_eq!(target.offset_secs, 3600);
            assert_eq!(secs, 3 * 3600);
            assert_eq!(nanos, 0);
            assert_eq!(utc_secs(&now) + secs as i64, utc_secs(&target));
        }
        other => panic!("unexpected {other:?}"),
    }
}

#[test]
fn the_loop_ends_or_exits_after_the_stop() {
    assert_eq!(after_stop(true), LoopEnd::Done);
    assert_eq!(after_stop(false), LoopEnd::ExitNow);
}

#[test]
fn a_resolved_fold_is_the_later_instance() {
    // 02:30 on 2026-10-25 in Zagreb happens at +02:00 and then at +01:00.
    let t = resolve_local_dt(naive("2026-10-25 02:30:00"), ZONE).expect("exists");
    assert_eq!(t.offset_secs, 3600);
}
