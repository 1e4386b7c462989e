use rollcall::calendar::{Date, TimeOfDay};
use rollcall::clock::{civil_date, Instant, LocalInstant};
use rollcall::schedule::{next_trigger, pick_trigger, single, sleep_seconds};
use rollcall::schedule::{Command, ConfigError, CycleState, ScheduleError, Scheduler};
use rollcall::schedule::{SchedulerEvent, TriggerConfig};

// 2024-01-01 00:00:00 in Asia/Kolkata, which is five and a half hours ahead of UTC.
const KOLKATA_NEW_YEAR: i64 = 1_704_047_400;

fn at(hour: u32, minute: u32, second: u32) -> TimeOfDay {
    TimeOfDay { hour, minute, second }
}

fn instant(secs: i64) -> Instant {
    Instant { secs, nanos: 0 }
}

fn kolkata_half_past_midnight() -> TriggerConfig {
    TriggerConfig::new("Asia/Kolkata".to_string(), at(0, 30, 0)).expect("a good configuration")
}

fn new_york(time: TimeOfDay) -> TriggerConfig {
    TriggerConfig::new("America/New_York".to_string(), time).expect("a good configuration")
}

#[test]
fn config_keeps_zone_and_time() {
    let config = kolkata_half_past_midnight();
    assert_eq!(config.zone(), "Asia/Kolkata");
    assert_eq!(config.at(), at(0, 30, 0));
}

#[test]
fn config_refuses_an_invalid_time() {
    assert_eq!(
        TriggerConfig::new("Asia/Kolkata".to_string(), at(24, 0, 0)).err(),
        Some(ConfigError::InvalidTime)
    );
    assert_eq!(
        TriggerConfig::new("Asia/Kolkata".to_string(), at(0, 60, 0)).err(),
        Some(ConfigError::InvalidTime)
    );
    assert_eq!(
        TriggerConfig::new("Asia/Kolkata".to_string(), at(0, 0, 60)).err(),
        Some(ConfigError::InvalidTime)
    );
}

#[test]
fn config_refuses_an_unknown_zone() {
    assert_eq!(
        TriggerConfig::new("Asia/Atlantis".to_string(), at(0, 30, 0)).err(),
        Some(ConfigError::UnknownZone)
    );
    assert_eq!(TriggerConfig::new(String::new(), at(0, 30, 0)).err(), Some(ConfigError::UnknownZone));
}

#[test]
fn config_names_the_time_before_the_zone() {
    assert_eq!(
        TriggerConfig::new("Asia/Atlantis".to_string(), at(25, 0, 0)).err(),
        Some(ConfigError::InvalidTime)
    );
}

#[test]
fn trigger_is_tomorrow_once_todays_has_passed() {
    // 2024-01-01 00:35 in Kolkata: the next 00:30 is that of 2024-01-02.
    let now = instant(KOLKATA_NEW_YEAR + 35 * 60);
    let next = next_trigger(&kolkata_half_past_midnight(), now);
    assert_eq!(next, Ok(KOLKATA_NEW_YEAR + 86_400 + 30 * 60));
}

#[test]
fn trigger_is_today_while_it_lies_ahead() {
    // 2024-01-01 00:10 in Kolkata: the next 00:30 is that of the same day.
    let now = instant(KOLKATA_NEW_YEAR + 10 * 60);
    let next = next_trigger(&kolkata_half_past_midnight(), now);
    assert_eq!(next, Ok(KOLKATA_NEW_YEAR + 30 * 60));
}

#[test]
fn trigger_at_the_very_second_is_tomorrows() {
    let now = instant(KOLKATA_NEW_YEAR + 30 * 60);
    let next = next_trigger(&kolkata_half_past_midnight(), now);
    assert_eq!(next, Ok(KOLKATA_NEW_YEAR + 86_400 + 30 * 60));
}

#[test]
fn trigger_follows_the_civil_day_not_the_utc_day() {
    // 2023-12-31 23:00 in Kolkata is 17:30 UTC of the same day.
    let now = instant(KOLKATA_NEW_YEAR - 3600);
    let next = next_trigger(&kolkata_half_past_midnight(), now);
    assert_eq!(next, Ok(KOLKATA_NEW_YEAR + 30 * 60));
}

#[test]
fn trigger_is_always_after_now() {
    let config = kolkata_half_past_midnight();
    let mut secs = KOLKATA_NEW_YEAR - 90_000;
    while secs < KOLKATA_NEW_YEAR + 180_000 {
        let next = next_trigger(&config, instant(secs)).expect("Kolkata has no clock changes");
        assert!(next > secs);
        assert!(next - secs <= 86_400);
        secs += 1_777;
    }
}

#[test]
fn trigger_in_a_gap_is_refused() {
    // On 2024-03-10 the clocks of New York go from 02:00 to 03:00.
    let now = instant(1_710_047_400); // 2024-03-10 00:10 in New York
    assert_eq!(next_trigger(&new_york(at(2, 30, 0)), now), Err(ScheduleError::NoSuchLocalTime));
}

#[test]
fn trigger_in_a_fold_is_refused() {
    // On 2024-11-03 the clocks of New York show 01:00 to 02:00 twice.
    let now = instant(1_730_607_000); // 2024-11-03 00:10 in New York
    assert_eq!(next_trigger(&new_york(at(1, 30, 0)), now), Err(ScheduleError::AmbiguousLocalTime));
}

#[test]
fn tomorrow_is_the_next_civil_day_across_a_clock_change() {
    // 2024-03-09 13:00 in New York; the next noon is 23 hours away, not 24.
    let now = instant(1_710_007_200);
    let next = next_trigger(&new_york(at(12, 0, 0)), now);
    assert_eq!(next, Ok(1_710_086_400));
    assert_eq!(sleep_seconds(now, 1_710_086_400), 79_200);
}

#[test]
fn trigger_out_of_range_is_refused() {
    let config = kolkata_half_past_midnight();
    assert_eq!(next_trigger(&config, instant(i64::MAX)), Err(ScheduleError::OutOfRange));
    assert_eq!(next_trigger(&config, instant(i64::MIN)), Err(ScheduleError::OutOfRange));
    assert_eq!(
        next_trigger(&config, Instant { secs: 0, nanos: 2_000_000_000 }),
        Err(ScheduleError::OutOfRange)
    );
}

#[test]
fn single_reads_one_instant_only() {
    assert_eq!(single(Some(LocalInstant::Single(7))), Ok(7));
    assert_eq!(single(Some(LocalInstant::Gap)), Err(ScheduleError::NoSuchLocalTime));
    assert_eq!(single(Some(LocalInstant::Fold(7, 8))), Err(ScheduleError::AmbiguousLocalTime));
    assert_eq!(single(None), Err(ScheduleError::OutOfRange));
}

#[test]
fn pick_trigger_prefers_today_while_ahead() {
    let today = Some(LocalInstant::Single(100));
    let tomorrow = Some(LocalInstant::Single(200));
    assert_eq!(pick_trigger(instant(99), today, tomorrow), Ok(100));
    assert_eq!(pick_trigger(instant(100), today, tomorrow), Ok(200));
    assert_eq!(pick_trigger(instant(150), today, tomorrow), Ok(200));
}

#[test]
fn pick_trigger_reports_todays_fault_first() {
    let good = Some(LocalInstant::Single(200));
    assert_eq!(pick_trigger(instant(0), Some(LocalInstant::Gap), good), Err(ScheduleError::NoSuchLocalTime));
    assert_eq!(
        pick_trigger(instant(0), Some(LocalInstant::Fold(1, 2)), Some(LocalInstant::Gap)),
        Err(ScheduleError::AmbiguousLocalTime)
    );
    assert_eq!(pick_trigger(instant(0), None, good), Err(ScheduleError::OutOfRange));
}

#[test]
fn pick_trigger_ignores_tomorrow_while_today_is_ahead() {
    assert_eq!(pick_trigger(instant(0), Some(LocalInstant::Single(5)), Some(LocalInstant::Gap)), Ok(5));
    assert_eq!(pick_trigger(instant(0), Some(LocalInstant::Single(5)), None), Ok(5));
}

#[test]
fn pick_trigger_reports_tomorrows_fault_once_today_has_passed() {
    let passed = Some(LocalInstant::Single(5));
    assert_eq!(pick_trigger(instant(5), passed, Some(LocalInstant::Gap)), Err(ScheduleError::NoSuchLocalTime));
    assert_eq!(
        pick_trigger(instant(5), passed, Some(LocalInstant::Fold(9, 10))),
        Err(ScheduleError::AmbiguousLocalTime)
    );
    assert_eq!(pick_trigger(instant(5), passed, None), Err(ScheduleError::OutOfRange));
    assert_eq!(pick_trigger(instant(5), passed, Some(LocalInstant::Single(5))), Err(ScheduleError::NotAhead));
    assert_eq!(pick_trigger(instant(5), passed, Some(LocalInstant::Single(4))), Err(ScheduleError::NotAhead));
}

#[test]
fn sleep_is_counted_in_whole_seconds() {
    assert_eq!(sleep_seconds(instant(100), 160), 60);
    assert_eq!(sleep_seconds(Instant { secs: 100, nanos: 1 }, 160), 59);
    assert_eq!(sleep_seconds(Instant { secs: 100, nanos: 999_999_999 }, 160), 59);
    assert_eq!(sleep_seconds(Instant { secs: 100, nanos: 500_000_000 }, 101), 0);
}

#[test]
fn sleep_is_never_negative() {
    assert_eq!(sleep_seconds(instant(160), 160), 0);
    assert_eq!(sleep_seconds(instant(161), 160), 0);
    assert_eq!(sleep_seconds(instant(i64::MAX), i64::MIN), 0);
}

#[test]
fn sleep_spans_the_whole_range_of_instants() {
    assert_eq!(sleep_seconds(instant(i64::MIN), i64::MAX), u64::MAX);
    assert_eq!(sleep_seconds(Instant { secs: i64::MIN, nanos: 1 }, i64::MAX), u64::MAX - 1);
}

#[test]
fn sleep_until_the_trigger_of_the_day() {
    let config = kolkata_half_past_midnight();
    let now = instant(KOLKATA_NEW_YEAR + 10 * 60);
    let next = next_trigger(&config, now).unwrap();
    assert_eq!(sleep_seconds(now, next), 20 * 60);
    let now = instant(KOLKATA_NEW_YEAR + 35 * 60);
    let next = next_trigger(&config, now).unwrap();
    assert_eq!(sleep_seconds(now, next), 86_400 - 5 * 60);
}

#[test]
fn civil_date_is_that_of_the_zone() {
    // 2024-01-02 00:30 in Kolkata is 2024-01-01 19:00 UTC.
    let now = instant(KOLKATA_NEW_YEAR + 86_400 + 30 * 60);
    assert_eq!(civil_date("Asia/Kolkata", now), Date::from_ymd(2024, 1, 2));
    assert_eq!(civil_date("UTC", now), Date::from_ymd(2024, 1, 1));
    assert_eq!(civil_date("America/New_York", now), Date::from_ymd(2024, 1, 1));
}

#[test]
fn civil_date_of_an_unknown_zone_or_instant() {
    assert_eq!(civil_date("Asia/Atlantis", instant(0)), None);
    assert_eq!(civil_date("Asia/Kolkata", instant(i64::MAX)), None);
}

#[test]
fn scheduler_starts_asleep() {
    let now = instant(KOLKATA_NEW_YEAR + 10 * 60);
    let (scheduler, first) = Scheduler::start(kolkata_half_past_midnight(), now).unwrap();
    assert_eq!(scheduler.state(), CycleState::Sleeping);
    assert_eq!(first, Command::Sleep(20 * 60));
    assert_eq!(scheduler.config().zone(), "Asia/Kolkata");
}

#[test]
fn scheduler_runs_the_task_for_the_civil_date_on_waking() {
    let (mut scheduler, _) =
        Scheduler::start(kolkata_half_past_midnight(), instant(KOLKATA_NEW_YEAR + 10 * 60)).unwrap();
    let woke = instant(KOLKATA_NEW_YEAR + 30 * 60);
    let command = scheduler.handle(SchedulerEvent::SleepElapsed, woke);
    assert_eq!(command, Ok(Command::Run(Date::from_ymd(2024, 1, 1).unwrap())));
    assert_eq!(scheduler.state(), CycleState::Running);
}

#[test]
fn scheduler_sleeps_again_whatever_the_task_reports() {
    for seeded in [true, false] {
        let (mut scheduler, _) =
            Scheduler::start(kolkata_half_past_midnight(), instant(KOLKATA_NEW_YEAR)).unwrap();
        scheduler.handle(SchedulerEvent::SleepElapsed, instant(KOLKATA_NEW_YEAR + 30 * 60)).unwrap();
        let back = instant(KOLKATA_NEW_YEAR + 31 * 60);
        let command = scheduler.handle(SchedulerEvent::TaskReturned { seeded }, back);
        assert_eq!(command, Ok(Command::Sleep(86_400 - 60)));
        assert_eq!(scheduler.state(), CycleState::Sleeping);
    }
}

#[test]
fn scheduler_goes_round_for_many_days() {
    let (mut scheduler, mut command) =
        Scheduler::start(kolkata_half_past_midnight(), instant(KOLKATA_NEW_YEAR)).unwrap();
    let mut now = KOLKATA_NEW_YEAR;
    for day in 1..=40u32 {
        let Command::Sleep(seconds) = command else { panic!("expected a sleep") };
        now += seconds as i64;
        let run = scheduler.handle(SchedulerEvent::SleepElapsed, instant(now)).unwrap();
        let expected = if day <= 31 {
            Date::from_ymd(2024, 1, day)
        } else {
            Date::from_ymd(2024, 2, day - 31)
        };
        assert_eq!(run, Command::Run(expected.unwrap()));
        now += 7;
        command = scheduler.handle(SchedulerEvent::TaskReturned { seeded: day % 3 != 0 }, instant(now)).unwrap();
    }
}

#[test]
fn scheduler_refuses_events_out_of_turn() {
    let (mut scheduler, _) =
        Scheduler::start(kolkata_half_past_midnight(), instant(KOLKATA_NEW_YEAR)).unwrap();
    let now = instant(KOLKATA_NEW_YEAR + 60);
    assert_eq!(
        scheduler.handle(SchedulerEvent::TaskReturned { seeded: true }, now),
        Err(ScheduleError::OutOfTurn)
    );
    assert_eq!(scheduler.state(), CycleState::Sleeping);
    scheduler.handle(SchedulerEvent::SleepElapsed, now).unwrap();
    assert_eq!(scheduler.handle(SchedulerEvent::SleepElapsed, now), Err(ScheduleError::OutOfTurn));
    assert_eq!(scheduler.state(), CycleState::Running);
}

#[test]
fn scheduler_stays_where_it_is_on_a_fault() {
    let (mut scheduler, _) =
        Scheduler::start(kolkata_half_past_midnight(), instant(KOLKATA_NEW_YEAR)).unwrap();
    assert_eq!(
        scheduler.handle(SchedulerEvent::SleepElapsed, instant(i64::MAX)),
        Err(ScheduleError::OutOfRange)
    );
    assert_eq!(scheduler.state(), CycleState::Sleeping);
    scheduler.handle(SchedulerEvent::SleepElapsed, instant(KOLKATA_NEW_YEAR)).unwrap();
    assert_eq!(
        scheduler.handle(SchedulerEvent::TaskReturned { seeded: true }, instant(i64::MAX)),
        Err(ScheduleError::OutOfRange)
    );
    assert_eq!(scheduler.state(), CycleState::Running);
}

#[test]
fn scheduler_does_not_start_on_a_fault() {
    let started = Scheduler::start(new_york(at(2, 30, 0)), instant(1_710_047_400));
    assert_eq!(started.err(), Some(ScheduleError::NoSuchLocalTime));
}
