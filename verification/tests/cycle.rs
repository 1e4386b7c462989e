use rollcall::bootstrap::execute_daily_task;
use rollcall::calendar::{Date, TimeOfDay};
use rollcall::clock::Instant;
use rollcall::models::Member;
use rollcall::report::AttendanceQueries;
use rollcall::schedule::{Command, CycleState, Scheduler, SchedulerEvent, TriggerConfig};
use rollcall::seeding::LogEvent;
use rollcall::store::MemoryStore;
use rollcall::table::Refusal;

// 2024-01-01 00:00:00 in Asia/Kolkata.
const KOLKATA_NEW_YEAR: i64 = 1_704_047_400;

fn club_of(ids: &[i32]) -> MemoryStore {
    let mut store = MemoryStore::new();
    for id in ids {
        store.directory.add(Member { member_id: *id, name: format!("member {id}"), year: 1 });
    }
    store
}

// Drives the scheduler as a process would: sleeps end on time, and a run takes `run_takes` seconds.
fn run_days(store: &mut MemoryStore, start: i64, days: usize, run_takes: i64) -> Vec<(Date, Vec<LogEvent>)> {
    let config = TriggerConfig::new("Asia/Kolkata".to_string(), TimeOfDay { hour: 0, minute: 30, second: 0 })
        .expect("a good configuration");
    let mut now = start;
    let (mut scheduler, mut command) =
        Scheduler::start(config, Instant { secs: now, nanos: 0 }).expect("a trigger");
    let mut runs = Vec::new();
    while runs.len() < days {
        let event = match command {
            Command::Sleep(seconds) => {
                now += seconds as i64;
                SchedulerEvent::SleepElapsed
            }
            Command::Run(today) => {
                let log = execute_daily_task(store, today);
                let seeded = !matches!(log.first(), Some(LogEvent::RosterFetchFailed { .. }));
                runs.push((today, log));
                now += run_takes;
                SchedulerEvent::TaskReturned { seeded }
            }
        };
        command = scheduler.handle(event, Instant { secs: now, nanos: 0 }).expect("a command");
    }
    assert_eq!(scheduler.state(), CycleState::Sleeping);
    runs
}

#[test]
fn loop_seeds_every_day_once() {
    let mut store = club_of(&[1, 2, 3]);
    let runs = run_days(&mut store, KOLKATA_NEW_YEAR + 45 * 60, 5, 12);
    let dates: Vec<String> = runs.iter().map(|(date, _)| date.to_text()).collect();
    assert_eq!(dates, vec!["2024-01-02", "2024-01-03", "2024-01-04", "2024-01-05", "2024-01-06"]);
    assert_eq!(store.attendance.rows().len(), 15);
    assert_eq!(store.status_updates.rows().len(), 15);
    for (date, _) in &runs {
        for id in [1, 2, 3] {
            assert!(store.attendance.has_row(id, *date));
            assert!(store.status_updates.has_row(id, *date));
        }
    }
}

#[test]
fn loop_starts_on_the_same_day_before_the_trigger() {
    let mut store = club_of(&[1]);
    let runs = run_days(&mut store, KOLKATA_NEW_YEAR + 5 * 60, 2, 1);
    let dates: Vec<String> = runs.iter().map(|(date, _)| date.to_text()).collect();
    assert_eq!(dates, vec!["2024-01-01", "2024-01-02"]);
}

#[test]
fn loop_goes_on_after_a_day_without_a_roster() {
    let mut store = club_of(&[1, 2]);
    store.directory.set_reachable(false);
    let runs = run_days(&mut store, KOLKATA_NEW_YEAR, 2, 3);
    assert!(runs.iter().all(|(_, log)| log.len() == 1));
    assert!(store.attendance.rows().is_empty());
    store.directory.set_reachable(true);
    let runs = run_days(&mut store, KOLKATA_NEW_YEAR + 2 * 86_400, 1, 3);
    assert_eq!(runs[0].0.to_text(), "2024-01-03");
    assert_eq!(store.attendance.rows().len(), 2);
}

#[test]
fn loop_goes_on_after_a_day_of_failed_inserts() {
    let mut store = club_of(&[1, 2]);
    store.attendance.refuse(Refusal::Everybody);
    store.status_updates.refuse(Refusal::Everybody);
    let runs = run_days(&mut store, KOLKATA_NEW_YEAR, 3, 3);
    assert_eq!(runs.len(), 3);
    assert!(runs.iter().all(|(_, log)| log.iter().all(|line| matches!(line, LogEvent::RowFailed { .. }))));
    assert!(store.attendance.rows().is_empty());
}

#[test]
fn report_reads_what_the_loop_has_seeded() {
    let mut store = club_of(&[1, 2]);
    run_days(&mut store, KOLKATA_NEW_YEAR, 3, 3);
    let report = AttendanceQueries
        .get_attendance_summary(
            &store,
            "2024-01-01".to_string(),
            "2024-01-31".to_string(),
            Date::from_ymd(2024, 1, 31).unwrap(),
        )
        .unwrap();
    let days: Vec<(&str, i64)> = report.daily_count.iter().map(|c| (c.date.as_str(), c.count)).collect();
    assert_eq!(days, vec![("2024-01-01", 0), ("2024-01-02", 0), ("2024-01-03", 0)]);
    assert_eq!(report.max_days, 0);
    assert!(report.member_attendance.iter().all(|m| m.present_days == 0));
}
