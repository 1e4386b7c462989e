use rollcall::calendar::{Date, TimeOfDay};
use rollcall::models::{AttendanceRecord, AttendanceReport, DailyCount, Member};
use rollcall::models::MemberAttendanceSummary;
use rollcall::report::{build_report, check_range, count_present_days, daily_counts};
use rollcall::report::{max_attended_days, member_attendance, parse_range};
use rollcall::report::{AttendanceQueries, DateRange, DayTally, ReportError, Window};
use rollcall::store::MemoryStore;

fn day(year: i32, month: u32, day: u32) -> Date {
    Date::from_ymd(year, month, day).expect("a day that exists")
}

fn member(member_id: i32, name: &str) -> Member {
    Member { member_id, name: name.to_string(), year: 1 }
}

fn row(member_id: i32, date: Date, is_present: bool) -> AttendanceRecord {
    let time_in = if is_present { Some(TimeOfDay { hour: 9, minute: 0, second: 0 }) } else { None };
    AttendanceRecord { member_id, date, is_present, time_in, time_out: None }
}

fn range(start: Date, end: Date) -> DateRange {
    DateRange { start, end }
}

fn window(since: Option<Date>, until: Date) -> Window {
    Window { since, until }
}

// A window that leaves no day out.
fn always() -> Window {
    window(None, day(262_142, 12, 31))
}

fn count(date: &str, count: i64) -> DailyCount {
    DailyCount { date: date.to_string(), count }
}

fn summary(id: i32, name: &str, present_days: i64) -> MemberAttendanceSummary {
    MemberAttendanceSummary { id, name: name.to_string(), present_days }
}

// Members 1, 2 and 3; member 1 present on the first two days of 2024,
// member 2 on the first only, member 3 never.
fn club() -> MemoryStore {
    let mut store = MemoryStore::new();
    store.directory.add(member(3, "Cy"));
    store.directory.add(member(1, "Avi"));
    store.directory.add(member(2, "Bea"));
    for record in [
        row(1, day(2024, 1, 1), true),
        row(2, day(2024, 1, 1), true),
        row(3, day(2024, 1, 1), false),
        row(1, day(2024, 1, 2), true),
        row(2, day(2024, 1, 2), false),
        row(3, day(2024, 1, 2), false),
    ] {
        store.attendance.insert_if_absent(record);
    }
    store
}

fn summary_of(store: &MemoryStore, start: &str, end: &str, today: Date) -> Result<AttendanceReport, ReportError> {
    AttendanceQueries.get_attendance_summary(store, start.to_string(), end.to_string(), today)
}

#[test]
fn range_that_ends_before_it_starts_is_refused() {
    assert_eq!(parse_range("2024-02-01", "2024-01-01"), Err(ReportError::StartAfterEnd));
    assert_eq!(
        summary_of(&club(), "2024-02-01", "2024-01-01", day(2024, 2, 1)),
        Err(ReportError::StartAfterEnd)
    );
}

#[test]
fn range_of_a_single_day_is_accepted() {
    assert_eq!(parse_range("2024-01-01", "2024-01-01"), Ok(range(day(2024, 1, 1), day(2024, 1, 1))));
    let report = summary_of(&club(), "2024-01-01", "2024-01-01", day(2024, 1, 15)).unwrap();
    assert_eq!(report.daily_count, vec![count("2024-01-01", 2)]);
}

#[test]
fn range_with_an_unreadable_date_is_refused() {
    assert_eq!(parse_range("01/01/2024", "2024-01-02"), Err(ReportError::InvalidStartDate));
    assert_eq!(parse_range("2024-01-01", "2024-13-02"), Err(ReportError::InvalidEndDate));
    assert_eq!(parse_range("", ""), Err(ReportError::InvalidStartDate));
    assert_eq!(parse_range("2024-02-30", "nonsense"), Err(ReportError::InvalidStartDate));
    assert_eq!(
        summary_of(&club(), "2024-01-01", "soon", day(2024, 1, 15)),
        Err(ReportError::InvalidEndDate)
    );
}

#[test]
fn check_range_names_the_first_fault() {
    let d = day(2024, 1, 1);
    assert_eq!(check_range(None, None), Err(ReportError::InvalidStartDate));
    assert_eq!(check_range(None, Some(d)), Err(ReportError::InvalidStartDate));
    assert_eq!(check_range(Some(d), None), Err(ReportError::InvalidEndDate));
    assert_eq!(check_range(Some(day(2024, 1, 2)), Some(d)), Err(ReportError::StartAfterEnd));
    assert_eq!(check_range(Some(d), Some(d)), Ok(range(d, d)));
    assert_eq!(check_range(Some(d), Some(day(2025, 1, 1))), Ok(range(d, day(2025, 1, 1))));
}

#[test]
fn errors_have_their_words() {
    assert_eq!(ReportError::InvalidStartDate.message(), "Invalid start_date format. Use YYYY-MM-DD");
    assert_eq!(ReportError::InvalidEndDate.message(), "Invalid end_date format. Use YYYY-MM-DD");
    assert_eq!(ReportError::StartAfterEnd.message(), "startDate cannot be greater than endDate.");
    assert_eq!(ReportError::RosterUnavailable.message(), "the member directory cannot be reached");
}

#[test]
fn range_contains_its_ends() {
    let r = range(day(2024, 1, 10), day(2024, 1, 20));
    assert!(r.contains(&day(2024, 1, 10)));
    assert!(r.contains(&day(2024, 1, 15)));
    assert!(r.contains(&day(2024, 1, 20)));
    assert!(!r.contains(&day(2024, 1, 9)));
    assert!(!r.contains(&day(2024, 1, 21)));
}

#[test]
fn summary_counts_per_day_and_per_member() {
    let report = summary_of(&club(), "2024-01-01", "2024-01-02", day(2024, 1, 15)).unwrap();
    assert_eq!(report.daily_count, vec![count("2024-01-01", 2), count("2024-01-02", 1)]);
    assert_eq!(
        report.member_attendance,
        vec![summary(1, "Avi", 2), summary(2, "Bea", 1), summary(3, "Cy", 0)]
    );
    assert_eq!(report.max_days, 2);
}

#[test]
fn summary_of_an_empty_store_is_empty() {
    let report = summary_of(&MemoryStore::new(), "2024-01-01", "2024-01-02", day(2024, 1, 15)).unwrap();
    assert_eq!(report, AttendanceReport { daily_count: vec![], member_attendance: vec![], max_days: 0 });
}

#[test]
fn summary_lists_members_without_rows() {
    let mut store = MemoryStore::new();
    store.directory.add(member(8, "Hal"));
    let report = summary_of(&store, "2024-01-01", "2024-01-02", day(2024, 1, 15)).unwrap();
    assert_eq!(report.member_attendance, vec![summary(8, "Hal", 0)]);
    assert!(report.daily_count.is_empty());
}

#[test]
fn summary_counts_the_window_from_today_not_from_the_range() {
    // The range lies in January; made in September, the six months before
    // it no longer reach back to January.
    let report = summary_of(&club(), "2024-01-01", "2024-01-02", day(2024, 9, 1)).unwrap();
    assert_eq!(report.daily_count, vec![count("2024-01-01", 2), count("2024-01-02", 1)]);
    assert_eq!(
        report.member_attendance,
        vec![summary(1, "Avi", 0), summary(2, "Bea", 0), summary(3, "Cy", 0)]
    );
    assert_eq!(report.max_days, 0);
}

#[test]
fn daily_counts_leave_out_days_without_rows() {
    let rows = vec![row(1, day(2024, 1, 5), true), row(1, day(2024, 1, 1), true)];
    let tally = daily_counts(&rows, range(day(2024, 1, 1), day(2024, 1, 31)));
    assert_eq!(
        tally,
        vec![
            DayTally { date: day(2024, 1, 1), present: 1 },
            DayTally { date: day(2024, 1, 5), present: 1 }
        ]
    );
}

#[test]
fn daily_counts_list_days_on_which_nobody_was_present() {
    let rows = vec![row(1, day(2024, 1, 3), false), row(2, day(2024, 1, 3), false)];
    let tally = daily_counts(&rows, range(day(2024, 1, 1), day(2024, 1, 31)));
    assert_eq!(tally, vec![DayTally { date: day(2024, 1, 3), present: 0 }]);
}

#[test]
fn daily_counts_leave_out_days_outside_the_range() {
    let rows = vec![
        row(1, day(2023, 12, 31), true),
        row(1, day(2024, 1, 1), true),
        row(1, day(2024, 1, 31), false),
        row(1, day(2024, 2, 1), true),
    ];
    let tally = daily_counts(&rows, range(day(2024, 1, 1), day(2024, 1, 31)));
    assert_eq!(
        tally,
        vec![
            DayTally { date: day(2024, 1, 1), present: 1 },
            DayTally { date: day(2024, 1, 31), present: 0 }
        ]
    );
}

#[test]
fn daily_counts_come_in_the_order_of_the_days() {
    let rows = vec![
        row(1, day(2024, 3, 1), true),
        row(2, day(2023, 3, 2), true),
        row(1, day(2024, 2, 29), true),
        row(2, day(2024, 3, 1), true),
        row(3, day(2024, 3, 1), false),
        row(3, day(2023, 3, 2), true),
    ];
    let tally = daily_counts(&rows, range(day(2023, 1, 1), day(2024, 12, 31)));
    assert_eq!(
        tally,
        vec![
            DayTally { date: day(2023, 3, 2), present: 2 },
            DayTally { date: day(2024, 2, 29), present: 1 },
            DayTally { date: day(2024, 3, 1), present: 2 },
        ]
    );
}

#[test]
fn daily_counts_of_no_rows() {
    assert!(daily_counts(&Vec::new(), range(day(2024, 1, 1), day(2024, 1, 31))).is_empty());
}

#[test]
fn present_days_count_from_the_first_day_of_the_window() {
    let rows = vec![
        row(1, day(2024, 2, 28), true),
        row(1, day(2024, 2, 29), true),
        row(1, day(2024, 3, 1), true),
        row(1, day(2024, 3, 2), false),
        row(2, day(2024, 3, 1), true),
    ];
    let six_months = Window::six_months_to(day(2024, 8, 31));
    assert_eq!(six_months, window(Some(day(2024, 2, 29)), day(2024, 8, 31)));
    assert_eq!(count_present_days(&rows, 1, six_months), 2);
    assert_eq!(count_present_days(&rows, 2, six_months), 1);
    assert_eq!(count_present_days(&rows, 3, six_months), 0);
    assert_eq!(count_present_days(&rows, 1, always()), 3);
}

#[test]
fn present_days_count_to_the_day_of_the_report_and_no_further() {
    let rows = vec![
        row(1, day(2024, 1, 14), true),
        row(1, day(2024, 1, 15), true),
        row(1, day(2024, 1, 16), true),
        row(1, day(2024, 2, 1), true),
    ];
    let six_months = Window::six_months_to(day(2024, 1, 15));
    assert_eq!(count_present_days(&rows, 1, six_months), 2);
    assert_eq!(max_attended_days(&rows, six_months), 2);
}

#[test]
fn summary_leaves_out_rows_dated_after_the_day_of_the_report() {
    let mut store = MemoryStore::new();
    store.directory.add(member(1, "Avi"));
    store.attendance.insert_if_absent(row(1, day(2024, 2, 1), true));
    let report = summary_of(&store, "2024-01-01", "2024-12-31", day(2024, 1, 15)).unwrap();
    assert_eq!(report.daily_count, vec![count("2024-02-01", 1)]);
    assert_eq!(report.member_attendance, vec![summary(1, "Avi", 0)]);
    assert_eq!(report.max_days, 0);
    let report = summary_of(&store, "2024-01-01", "2024-12-31", day(2024, 2, 1)).unwrap();
    assert_eq!(report.member_attendance, vec![summary(1, "Avi", 1)]);
    assert_eq!(report.max_days, 1);
}

#[test]
fn summary_of_a_store_whose_directory_cannot_be_read_is_an_error() {
    let mut store = club();
    store.directory.set_reachable(false);
    assert_eq!(
        summary_of(&store, "2024-01-01", "2024-01-02", day(2024, 1, 15)),
        Err(ReportError::RosterUnavailable)
    );
    // What is wrong with the range is said first.
    assert_eq!(
        summary_of(&store, "2024-02-01", "2024-01-01", day(2024, 1, 15)),
        Err(ReportError::StartAfterEnd)
    );
    store.directory.set_reachable(true);
    assert!(summary_of(&store, "2024-01-01", "2024-01-02", day(2024, 1, 15)).is_ok());
}

#[test]
fn window_has_a_first_and_a_last_day() {
    let w = window(Some(day(2024, 1, 1)), day(2024, 6, 30));
    assert!(!w.contains(&day(2023, 12, 31)));
    assert!(w.contains(&day(2024, 1, 1)));
    assert!(w.contains(&day(2024, 6, 30)));
    assert!(!w.contains(&day(2024, 7, 1)));
    let open = window(None, day(2024, 6, 30));
    assert!(open.contains(&day(-262_143, 1, 1)));
    assert!(!open.contains(&day(2024, 7, 1)));
}

#[test]
fn member_attendance_keeps_the_order_given() {
    let members = vec![member(5, "Eli"), member(2, "Bea")];
    let rows = vec![row(2, day(2024, 1, 1), true), row(2, day(2024, 1, 2), true)];
    assert_eq!(
        member_attendance(&members, &rows, always()),
        vec![summary(5, "Eli", 0), summary(2, "Bea", 2)]
    );
}

#[test]
fn max_days_counts_each_day_once() {
    let rows = vec![
        row(1, day(2024, 1, 1), true),
        row(2, day(2024, 1, 1), true),
        row(3, day(2024, 1, 2), false),
        row(1, day(2024, 1, 3), true),
        row(2, day(2023, 1, 3), true),
    ];
    let last = day(2024, 12, 31);
    assert_eq!(max_attended_days(&rows, always()), 3);
    assert_eq!(max_attended_days(&rows, window(Some(day(2024, 1, 1)), last)), 2);
    assert_eq!(max_attended_days(&rows, window(Some(day(2024, 1, 2)), last)), 1);
    assert_eq!(max_attended_days(&rows, window(Some(day(2024, 1, 4)), last)), 0);
    assert_eq!(max_attended_days(&rows, window(None, day(2024, 1, 2))), 2);
    assert_eq!(max_attended_days(&Vec::new(), always()), 0);
}

#[test]
fn build_report_on_plain_rows() {
    let members = vec![member(1, "Avi")];
    let rows = vec![row(1, day(2024, 6, 30), true), row(1, day(2024, 7, 1), true)];
    let report = build_report(&members, &rows, range(day(2024, 7, 1), day(2024, 7, 31)), day(2024, 12, 31));
    assert_eq!(report.daily_count, vec![count("2024-07-01", 1)]);
    // Six months before the last day of December is the last day of June.
    assert_eq!(report.member_attendance, vec![summary(1, "Avi", 2)]);
    assert_eq!(report.max_days, 2);
}

#[test]
fn build_report_where_the_window_has_no_first_day() {
    let first = day(-262_143, 1, 1);
    let rows = vec![row(1, first, true)];
    let report = build_report(&vec![member(1, "Avi")], &rows, range(first, first), day(-262_143, 3, 1));
    assert_eq!(report.daily_count, vec![count("-262143-01-01", 1)]);
    assert_eq!(report.member_attendance, vec![summary(1, "Avi", 1)]);
    assert_eq!(report.max_days, 1);
}

#[test]
fn queries_by_default() {
    let queries = AttendanceQueries::default();
    let report = queries
        .get_attendance_summary(&club(), "2024-01-02".to_string(), "2024-01-02".to_string(), day(2024, 1, 2))
        .unwrap();
    assert_eq!(report.daily_count, vec![count("2024-01-02", 1)]);
}
