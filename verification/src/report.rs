//! The attendance report: how many members were present on each day of a
//! range, on how many days each member was present in the last six months,
//! and on how many days of those months anyone was present.

use crate::calendar::{date_in_text, reads_back, Date};
use crate::models::{AttendanceRecord, AttendanceReport, DailyCount, Member};
use crate::models::MemberAttendanceSummary;
use crate::store::{ids_rise, unreachable_text, MemoryStore};
use vstd::prelude::*;

verus! {

/// Why a report was turned down.
#[derive(Clone, Copy, Debug, PartialEq, Eq, Structural)]
pub enum ReportError {
    /// The first day of the range is not a date written as `YYYY-MM-DD`.
    InvalidStartDate,
    /// The last day of the range is not a date written as `YYYY-MM-DD`.
    InvalidEndDate,
    /// The range ends before it starts.
    StartAfterEnd,
    /// The member directory could not be read.
    RosterUnavailable,
}

impl ReportError {
    /// The words for the error.
    pub open spec fn text(self) -> Seq<char> {
        match self {
            ReportError::InvalidStartDate => "Invalid start_date format. Use YYYY-MM-DD"@,
            ReportError::InvalidEndDate => "Invalid end_date format. Use YYYY-MM-DD"@,
            ReportError::StartAfterEnd => "startDate cannot be greater than endDate."@,
            ReportError::RosterUnavailable => unreachable_text(),
        }
    }

    /// The error in words.
    pub fn message(&self) -> (message: String)
        ensures
            message@ == self.text(),
    {
        match self {
            ReportError::InvalidStartDate => "Invalid start_date format. Use YYYY-MM-DD".to_string(),
            ReportError::InvalidEndDate => "Invalid end_date format. Use YYYY-MM-DD".to_string(),
            ReportError::StartAfterEnd => "startDate cannot be greater than endDate.".to_string(),
            ReportError::RosterUnavailable => "the member directory cannot be reached".to_string(),
        }
    }
}

/// The days from `start` to `end`, both included.
#[derive(Clone, Copy, Debug, PartialEq, Eq, Structural)]
pub struct DateRange {
    pub start: Date,
    pub end: Date,
}

impl DateRange {
    /// Whether `date` is one of the days of the range.
    pub open spec fn covers(self, date: Date) -> bool {
        self.start.not_after(date) && date.not_after(self.end)
    }

    /// Whether `date` is one of the days of the range.
    pub fn contains(&self, date: &Date) -> (inside: bool)
        ensures
            inside == self.covers(*date),
    {
        self.start.is_not_after(date) && date.is_not_after(&self.end)
    }
}

/// The range that two dates make, where both were read and the first is not
/// after the second; else what is wrong, the first day's fault first.
pub open spec fn range_of(start: Option<Date>, end: Option<Date>) -> Result<
    DateRange,
    ReportError,
> {
    match start {
        None => Err(ReportError::InvalidStartDate),
        Some(start) => match end {
            None => Err(ReportError::InvalidEndDate),
            Some(end) => if end.before(start) {
                Err(ReportError::StartAfterEnd)
            } else {
                Ok(DateRange { start, end })
            },
        },
    }
}

/// Makes a range of two dates that may have failed to parse.
pub fn check_range(start: Option<Date>, end: Option<Date>) -> (range: Result<
    DateRange,
    ReportError,
>)
    ensures
        range == range_of(start, end),
{
    let start = match start {
        Some(start) => start,
        None => {
            return Err(ReportError::InvalidStartDate);
        },
    };
    let end = match end {
        Some(end) => end,
        None => {
            return Err(ReportError::InvalidEndDate);
        },
    };
    if end.is_before(&start) {
        return Err(ReportError::StartAfterEnd);
    }
    Ok(DateRange { start, end })
}

/// Reads the two ends of a range, each written as `YYYY-MM-DD`. A day of the
/// years 0 to 9999 written so is read as that day.
pub fn parse_range(start_date: &str, end_date: &str) -> (range: Result<DateRange, ReportError>)
    ensures
        range == range_of(date_in_text(start_date@), date_in_text(end_date@)),
        reads_back(start_date@),
        reads_back(end_date@),
{
    check_range(Date::parse(start_date), Date::parse(end_date))
}

/// A day and the number of members present on it.
#[derive(Clone, Copy, Debug, PartialEq, Eq, Structural)]
pub struct DayTally {
    pub date: Date,
    pub present: i64,
}

/// How many rows of `rows` say that someone was present on `date`.
pub open spec fn present_on(rows: Seq<AttendanceRecord>, date: Date) -> nat {
    rows.filter(|row: AttendanceRecord| row.date == date && row.is_present).len()
}

/// Whether `rows` has a row for `date`, present or not.
pub open spec fn recorded_on(rows: Seq<AttendanceRecord>, date: Date) -> bool {
    exists|i: int| 0 <= i < rows.len() && (#[trigger] rows[i]).date == date
}

/// `tally` lists, from the earliest to the latest, each day of `range` for
/// which `rows` has a row, once, with the number of rows that say present.
pub open spec fn is_daily_tally(rows: Seq<AttendanceRecord>, range: DateRange, tally: Seq<DayTally>)
    -> bool {
    &&& forall|a: int, b: int|
        0 <= a < b < tally.len() ==> (#[trigger] tally[a]).date.before((#[trigger] tally[b]).date)
    &&& forall|a: int|
        0 <= a < tally.len() ==> range.covers((#[trigger] tally[a]).date) && recorded_on(
            rows,
            tally[a].date,
        ) && tally[a].present == present_on(rows, tally[a].date)
    &&& forall|i: int|
        0 <= i < rows.len() && range.covers((#[trigger] rows[i]).date) ==> exists|a: int|
            0 <= a < tally.len() && (#[trigger] tally[a]).date == rows[i].date
}

/// Counting over one more row.
pub proof fn lemma_present_on_step(rows: Seq<AttendanceRecord>, n: int, date: Date)
    requires
        0 <= n < rows.len(),
    ensures
        present_on(rows.take(n + 1), date) == present_on(rows.take(n), date) + if rows[n].date
            == date && rows[n].is_present {
            1nat
        } else {
            0nat
        },
        present_on(rows.take(n), date) <= n,
{
    reveal(Seq::filter);
    assert(rows.take(n + 1).drop_last() =~= rows.take(n));
    assert(rows.take(n + 1).last() == rows[n]);
    rows.take(n).lemma_filter_len(|row: AttendanceRecord| row.date == date && row.is_present);
}

/// A day without rows has nobody present.
pub proof fn lemma_present_on_unrecorded(rows: Seq<AttendanceRecord>, date: Date)
    requires
        !recorded_on(rows, date),
    ensures
        present_on(rows, date) == 0,
    decreases rows.len(),
{
    reveal(Seq::filter);
    if rows.len() > 0 {
        assert forall|i: int| 0 <= i < rows.drop_last().len() implies (
        #[trigger] rows.drop_last()[i]).date != date by {
            assert(rows[i].date != date);
        }
        lemma_present_on_unrecorded(rows.drop_last(), date);
        assert(rows[rows.len() - 1].date != date);
    }
}

/// A day that has a row among the first `n + 1` rows has one among the first
/// `n`, unless the row at `n` is the day's first.
proof fn lemma_recorded_step(rows: Seq<AttendanceRecord>, n: int, date: Date)
    requires
        0 <= n < rows.len(),
    ensures
        recorded_on(rows.take(n + 1), date) <==> recorded_on(rows.take(n), date) || rows[n].date
            == date,
{
    let seen = rows.take(n);
    let next = rows.take(n + 1);
    if recorded_on(seen, date) {
        let k = choose|k: int| 0 <= k < seen.len() && (#[trigger] seen[k]).date == date;
        assert(next[k].date == date);
    }
    if rows[n].date == date {
        assert(next[n].date == date);
    }
    if recorded_on(next, date) {
        let k = choose|k: int| 0 <= k < next.len() && (#[trigger] next[k]).date == date;
        if k < n {
            assert(seen[k].date == date);
        }
    }
}

/// For each day of `range` that has a row in `rows`: the day and the number
/// of rows that say present, from the earliest day to the latest.
pub fn daily_counts(rows: &Vec<AttendanceRecord>, range: DateRange) -> (tally: Vec<DayTally>)
    requires
        rows@.len() <= i64::MAX,
    ensures
        is_daily_tally(rows@, range, tally@),
        tally@ == daily_tally(rows@, range),
{
    let mut tally: Vec<DayTally> = Vec::new();
    let mut i: usize = 0;
    while i < rows.len()
        invariant
            i <= rows.len(),
            rows@.len() <= i64::MAX,
            is_daily_tally(rows@.take(i as int), range, tally@),
        decreases rows.len() - i,
    {
        let row = rows[i];
        let ghost seen = rows@.take(i as int);
        let ghost next = rows@.take(i + 1);
        let ghost before = tally@;
        proof {
            assert forall|date: Date|
                #![trigger present_on(next, date)]
                #![trigger recorded_on(next, date)]
                present_on(next, date) == present_on(seen, date) + if row.date == date
                    && row.is_present {
                    1nat
                } else {
                    0nat
                } && present_on(seen, date) <= i && (recorded_on(next, date) <==> recorded_on(
                    seen,
                    date,
                ) || row.date == date) by {
                lemma_present_on_step(rows@, i as int, date);
                lemma_recorded_step(rows@, i as int, date);
            }
            assert forall|k: int| 0 <= k < i implies #[trigger] next[k] == seen[k] by {}
            assert(next[i as int] == row);
        }
        if range.contains(&row.date) {
            let mut at: usize = 0;
            while at < tally.len() && tally[at].date.is_before(&row.date)
                invariant
                    at <= tally.len(),
                    forall|a: int| 0 <= a < at ==> (#[trigger] tally[a]).date.before(row.date),
                decreases tally.len() - at,
            {
                at += 1;
            }
            if at < tally.len() && tally[at].date == row.date {
                if row.is_present {
                    let entry = tally[at];
                    tally.set(at, DayTally { date: entry.date, present: entry.present + 1 });
                }
                proof {
                    assert forall|k: int|
                        0 <= k < next.len() && range.covers((#[trigger] next[k]).date) implies exists|
                        a: int,
                    |
                        0 <= a < tally@.len() && (#[trigger] tally@[a]).date == next[k].date by {
                        if k < i {
                            let a = choose|a: int|
                                0 <= a < before.len() && (#[trigger] before[a]).date == seen[k].date;
                            assert(tally@[a].date == next[k].date);
                        } else {
                            assert(tally@[at as int].date == next[k].date);
                        }
                    }
                }
            } else {
                proof {
                    if at < before.len() {
                        Date::lemma_order_total(row.date, before[at as int].date);
                    }
                    assert forall|a: int| at <= a < before.len() implies row.date.before(
                        (#[trigger] before[a]).date,
                    ) by {
                        if a > at {
                            assert(before[at as int].date.before(before[a].date));
                        }
                    }
                    if recorded_on(seen, row.date) {
                        let k = choose|k: int|
                            0 <= k < seen.len() && (#[trigger] seen[k]).date == row.date;
                        let a = choose|a: int|
                            0 <= a < before.len() && (#[trigger] before[a]).date == seen[k].date;
                        assert(false);
                    }
                    lemma_present_on_unrecorded(seen, row.date);
                }
                let present: i64 = if row.is_present {
                    1
                } else {
                    0
                };
                tally.insert(at, DayTally { date: row.date, present });
                proof {
                    assert forall|a: int, b: int| 0 <= a < b < tally@.len() implies (
                    #[trigger] tally@[a]).date.before((#[trigger] tally@[b]).date) by {
                        let a0 = if a < at { a } else { a - 1 };
                        let b0 = if b < at { b } else { b - 1 };
                        if a != at && b != at {
                            assert(before[a0].date.before(before[b0].date));
                        } else if a == at {
                            assert(row.date.before(before[b0].date));
                        } else {
                            assert(before[a0].date.before(row.date));
                        }
                    }
                    assert forall|a: int| 0 <= a < tally@.len() implies range.covers(
                        (#[trigger] tally@[a]).date,
                    ) && recorded_on(next, tally@[a].date) && tally@[a].present == present_on(
                        next,
                        tally@[a].date,
                    ) by {
                        if a != at {
                            let a0 = if a < at { a } else { a - 1 };
                            assert(tally@[a] == before[a0]);
                            assert(before[a0].date != row.date);
                        }
                    }
                    assert forall|k: int|
                        0 <= k < next.len() && range.covers((#[trigger] next[k]).date) implies exists|
                        a: int,
                    |
                        0 <= a < tally@.len() && (#[trigger] tally@[a]).date == next[k].date by {
                        if k < i {
                            let a = choose|a: int|
                                0 <= a < before.len() && (#[trigger] before[a]).date == seen[k].date;
                            let shifted = if a < at { a } else { a + 1 };
                            assert(tally@[shifted].date == next[k].date);
                        } else {
                            assert(tally@[at as int].date == next[k].date);
                        }
                    }
                }
            }
        } else {
            proof {
                assert forall|k: int|
                    0 <= k < next.len() && range.covers((#[trigger] next[k]).date) implies exists|
                    a: int,
                |
                    0 <= a < tally@.len() && (#[trigger] tally@[a]).date == next[k].date by {
                    let a = choose|a: int|
                        0 <= a < before.len() && (#[trigger] before[a]).date == seen[k].date;
                    assert(tally@[a].date == next[k].date);
                }
            }
        }
        i += 1;
    }
    assert(rows@.take(rows@.len() as int) =~= rows@);
    proof {
        lemma_tally_is_unique(rows@, range, tally@, daily_tally(rows@, range));
    }
    tally
}

/// Two tallies of the same rows over the same range agree on their first `n` days.
proof fn lemma_tallies_agree_so_far(
    rows: Seq<AttendanceRecord>,
    range: DateRange,
    one: Seq<DayTally>,
    other: Seq<DayTally>,
    n: int,
)
    requires
        is_daily_tally(rows, range, one),
        is_daily_tally(rows, range, other),
        0 <= n <= one.len(),
    ensures
        n <= other.len(),
        forall|j: int| 0 <= j < n ==> #[trigger] one[j] == other[j],
    decreases n,
{
    if n > 0 {
        let i = n - 1;
        lemma_tallies_agree_so_far(rows, range, one, other, i);
        let day = one[i].date;
        let k = choose|k: int| 0 <= k < rows.len() && (#[trigger] rows[k]).date == day;
        let a = choose|a: int| 0 <= a < other.len() && (#[trigger] other[a]).date == rows[k].date;
        if a < i {
            assert(one[a] == other[a]);
            assert(one[a].date.before(one[i].date));
        }
        let there = other[i].date;
        let m = choose|m: int| 0 <= m < rows.len() && (#[trigger] rows[m]).date == there;
        let b = choose|b: int| 0 <= b < one.len() && (#[trigger] one[b]).date == rows[m].date;
        if b < i {
            assert(one[b] == other[b]);
            assert(other[b].date.before(other[i].date));
        }
        if a > i {
            assert(other[i].date.before(other[a].date));
            if b > i {
                assert(one[i].date.before(one[b].date));
            }
        }
        assert(one[i].date == other[i].date);
    }
}

/// The rows and the range leave one tally and no other.
pub proof fn lemma_tally_is_unique(
    rows: Seq<AttendanceRecord>,
    range: DateRange,
    one: Seq<DayTally>,
    other: Seq<DayTally>,
)
    requires
        is_daily_tally(rows, range, one),
        is_daily_tally(rows, range, other),
    ensures
        one == other,
{
    lemma_tallies_agree_so_far(rows, range, one, other, one.len() as int);
    lemma_tallies_agree_so_far(rows, range, other, one, other.len() as int);
    assert(one =~= other);
}

/// For each day of `range` that has a row in `rows`: the day and the number
/// of rows that say present, from the earliest day to the latest.
pub open spec fn daily_tally(rows: Seq<AttendanceRecord>, range: DateRange) -> Seq<DayTally> {
    choose|tally: Seq<DayTally>| is_daily_tally(rows, range, tally)
}

/// The days that count towards the present days of a report: the six
/// months that end with the day the report is made.
#[derive(Clone, Copy, Debug, PartialEq, Eq)]
pub struct Window {
    /// The first day, or `None` where it would lie before every day a `Date` can hold.
    pub since: Option<Date>,
    /// The last day: the day the report is made.
    pub until: Date,
}

impl Window {
    /// Whether `date` is one of the days of the window: not before the
    /// first day, where there is one, and not after the last.
    pub open spec fn covers(self, date: Date) -> bool {
        &&& match self.since {
            Some(first) => first.not_after(date),
            None => true,
        }
        &&& date.not_after(self.until)
    }

    /// The six months that end with `today`.
    pub open spec fn trailing(today: Date) -> Window {
        Window { since: today.months_back(6), until: today }
    }

    /// Whether `date` is one of the days of the window.
    pub fn contains(&self, date: &Date) -> (inside: bool)
        ensures
            inside == self.covers(*date),
    {
        let late_enough = match &self.since {
            Some(first) => first.is_not_after(date),
            None => true,
        };
        late_enough && date.is_not_after(&self.until)
    }

    /// The six months that end with `today`.
    pub fn six_months_to(today: Date) -> (window: Window)
        ensures
            window == Window::trailing(today),
    {
        Window { since: today.minus_months(6), until: today }
    }
}

/// On how many rows of `rows` the member is present on a day of `window`.
pub open spec fn present_days(rows: Seq<AttendanceRecord>, member_id: i32, window: Window) -> nat {
    rows.filter(
        |row: AttendanceRecord|
            row.member_id == member_id && row.is_present && window.covers(row.date),
    ).len()
}

/// The days of `window` for which some row of `rows` says present.
pub open spec fn attended_days(rows: Seq<AttendanceRecord>, window: Window) -> Set<Date> {
    Set::new(
        |date: Date|
            exists|i: int|
                0 <= i < rows.len() && (#[trigger] rows[i]).date == date && rows[i].is_present
                    && window.covers(date),
    )
}

/// A row dated after the day a report is made counts for nothing in the
/// report's six months, whoever it says was present.
pub proof fn lemma_later_rows_count_for_nothing(
    rows: Seq<AttendanceRecord>,
    row: AttendanceRecord,
    today: Date,
    member_id: i32,
)
    requires
        today.before(row.date),
    ensures
        present_days(rows.push(row), member_id, Window::trailing(today)) == present_days(
            rows,
            member_id,
            Window::trailing(today),
        ),
        attended_days(rows.push(row), Window::trailing(today)) == attended_days(
            rows,
            Window::trailing(today),
        ),
{
    reveal(Seq::filter);
    let window = Window::trailing(today);
    let more = rows.push(row);
    assert(more.drop_last() =~= rows);
    assert forall|date: Date|
        attended_days(more, window).contains(date) <==> attended_days(rows, window).contains(
            date,
        ) by {
        if attended_days(more, window).contains(date) {
            let i = choose|i: int|
                0 <= i < more.len() && (#[trigger] more[i]).date == date && more[i].is_present
                    && window.covers(date);
            assert(rows[i] == more[i]);
        }
        if attended_days(rows, window).contains(date) {
            let i = choose|i: int|
                0 <= i < rows.len() && (#[trigger] rows[i]).date == date && rows[i].is_present
                    && window.covers(date);
            assert(more[i] == rows[i]);
        }
    }
    assert(attended_days(more, window) =~= attended_days(rows, window));
}

/// On how many rows the member is present on a day of `window`.
pub fn count_present_days(rows: &Vec<AttendanceRecord>, member_id: i32, window: Window) -> (days: i64)
    requires
        rows@.len() <= i64::MAX,
    ensures
        days == present_days(rows@, member_id, window),
{
    let mut days: i64 = 0;
    let mut i: usize = 0;
    while i < rows.len()
        invariant
            i <= rows.len(),
            rows@.len() <= i64::MAX,
            days == present_days(rows@.take(i as int), member_id, window),
            days <= i,
        decreases rows.len() - i,
    {
        proof {
            reveal(Seq::filter);
            assert(rows@.take(i + 1).drop_last() =~= rows@.take(i as int));
            assert(rows@.take(i + 1).last() == rows@[i as int]);
        }
        if rows[i].member_id == member_id && rows[i].is_present && window.contains(&rows[i].date) {
            days += 1;
        }
        i += 1;
    }
    assert(rows@.take(rows@.len() as int) =~= rows@);
    days
}

/// For each member, in the order given: id, name, and on how many rows the
/// member is present on a day of `window`. A member without such rows is
/// listed with zero.
pub fn member_attendance(
    members: &Vec<Member>,
    rows: &Vec<AttendanceRecord>,
    window: Window,
) -> (summary: Vec<MemberAttendanceSummary>)
    requires
        rows@.len() <= i64::MAX,
    ensures
        summary@.len() == members@.len(),
        forall|i: int|
            0 <= i < summary@.len() ==> (#[trigger] summary@[i]).id == members@[i].member_id
                && summary@[i].name@ == members@[i].name@ && summary@[i].present_days
                == present_days(rows@, members@[i].member_id, window),
{
    let mut summary: Vec<MemberAttendanceSummary> = Vec::new();
    let mut i: usize = 0;
    while i < members.len()
        invariant
            i <= members.len(),
            rows@.len() <= i64::MAX,
            summary@.len() == i,
            forall|k: int|
                0 <= k < i ==> (#[trigger] summary@[k]).id == members@[k].member_id
                    && summary@[k].name@ == members@[k].name@ && summary@[k].present_days
                    == present_days(rows@, members@[k].member_id, window),
        decreases members.len() - i,
    {
        let member = &members[i];
        let present_days = count_present_days(rows, member.member_id, window);
        summary.push(
            MemberAttendanceSummary { id: member.member_id, name: member.name.clone(), present_days },
        );
        i += 1;
    }
    summary
}

/// On how many days of `window` anyone was present.
pub fn max_attended_days(rows: &Vec<AttendanceRecord>, window: Window) -> (days: i64)
    requires
        rows@.len() <= i64::MAX,
    ensures
        attended_days(rows@, window).finite(),
        days == attended_days(rows@, window).len(),
{
    let mut seen: Vec<Date> = Vec::new();
    let mut i: usize = 0;
    while i < rows.len()
        invariant
            i <= rows.len(),
            seen@.len() <= i,
            seen@.no_duplicates(),
            seen@.to_set() =~= attended_days(rows@.take(i as int), window),
        decreases rows.len() - i,
    {
        let row = rows[i];
        let ghost so_far = rows@.take(i as int);
        let ghost next = rows@.take(i + 1);
        let ghost before = seen@;
        let counts = row.is_present && window.contains(&row.date);
        let mut known = false;
        if counts {
            let mut k: usize = 0;
            while k < seen.len()
                invariant
                    k <= seen.len(),
                    !known ==> forall|j: int| 0 <= j < k ==> seen@[j] != row.date,
                    known ==> seen@.contains(row.date),
                decreases seen.len() - k,
            {
                if seen[k] == row.date {
                    assert(seen@[k as int] == row.date);
                    known = true;
                }
                k += 1;
            }
            if !known {
                seen.push(row.date);
            }
        }
        proof {
            assert(next[i as int] == row);
            assert forall|date: Date| seen@.to_set().contains(date) <==> attended_days(
                next,
                window,
            ).contains(date) by {
                if attended_days(next, window).contains(date) {
                    let j = choose|j: int|
                        0 <= j < next.len() && (#[trigger] next[j]).date == date
                            && next[j].is_present && window.covers(date);
                    if j < i {
                        assert(so_far[j] == next[j]);
                        assert(attended_days(so_far, window).contains(date));
                        assert(before.contains(date));
                        let at = choose|at: int| 0 <= at < before.len() && before[at] == date;
                        assert(seen@[at] == date);
                    } else if !known {
                        assert(seen@[before.len() as int] == date);
                    }
                }
                if seen@.contains(date) {
                    let at = choose|at: int| 0 <= at < seen@.len() && seen@[at] == date;
                    if at < before.len() {
                        assert(before[at] == date);
                        assert(before.to_set().contains(date));
                        let j = choose|j: int|
                            0 <= j < so_far.len() && (#[trigger] so_far[j]).date == date
                                && so_far[j].is_present && window.covers(date);
                        assert(next[j] == so_far[j]);
                    } else {
                        assert(next[i as int].date == date);
                    }
                }
            }
        }
        i += 1;
    }
    proof {
        assert(rows@.take(rows@.len() as int) =~= rows@);
        seen@.unique_seq_to_set();
        vstd::seq_lib::seq_to_set_is_finite(seen@);
    }
    seen.len() as i64
}

/// Whether `report` is the attendance report on `rows` and `members` for
/// `range`, made on the day `today`: the daily counts are the tally of the
/// range with each day written as text, `YYYY-MM-DD` for the years 0 to
/// 9999; the members are listed in the order
/// given with their present days of the six months that end with `today`,
/// `today` included and no later day; and `max_days` counts the days of
/// those months on which anyone was present.
pub open spec fn is_report(
    members: Seq<Member>,
    rows: Seq<AttendanceRecord>,
    range: DateRange,
    today: Date,
    report: AttendanceReport,
) -> bool {
    let tally = daily_tally(rows, range);
    let window = Window::trailing(today);
    &&& is_daily_tally(rows, range, tally)
    &&& report.daily_count@.len() == tally.len()
    &&& forall|i: int|
        0 <= i < tally.len() ==> tally[i].date.is_written(
            (#[trigger] report.daily_count@[i]).date@,
        ) && report.daily_count@[i].count == tally[i].present
    &&& report.member_attendance@.len() == members.len()
    &&& forall|i: int|
        0 <= i < members.len() ==> (#[trigger] report.member_attendance@[i]).id
            == members[i].member_id && report.member_attendance@[i].name@ == members[i].name@
            && report.member_attendance@[i].present_days == present_days(
            rows,
            members[i].member_id,
            window,
        )
    &&& report.max_days == attended_days(rows, window).len()
}

/// The attendance report on `rows` and `members` for `range`, made on the day `today`.
pub fn build_report(
    members: &Vec<Member>,
    rows: &Vec<AttendanceRecord>,
    range: DateRange,
    today: Date,
) -> (report: AttendanceReport)
    requires
        rows@.len() <= i64::MAX,
    ensures
        is_report(members@, rows@, range, today, report),
{
    let tally = daily_counts(rows, range);
    let mut daily_count: Vec<DailyCount> = Vec::new();
    let mut i: usize = 0;
    while i < tally.len()
        invariant
            i <= tally.len(),
            daily_count@.len() == i,
            forall|k: int|
                0 <= k < i ==> tally@[k].date.is_written((#[trigger] daily_count@[k]).date@)
                    && daily_count@[k].count == tally@[k].present,
        decreases tally.len() - i,
    {
        daily_count.push(DailyCount { date: tally[i].date.to_text(), count: tally[i].present });
        i += 1;
    }
    let window = Window::six_months_to(today);
    let member_attendance = member_attendance(members, rows, window);
    let max_days = max_attended_days(rows, window);
    AttendanceReport { daily_count, member_attendance, max_days }
}

/// The queries on attendance.
#[derive(Debug)]
pub struct AttendanceQueries;

impl AttendanceQueries {
    /// The attendance report of `store` for the days from `start_date` to
    /// `end_date`, both written as `YYYY-MM-DD`, made on the day `today`. A
    /// date that cannot be read, or a range that ends before it starts, is
    /// turned down before anything is read. A member directory that cannot
    /// be read is an error too. The members come by rising id.
    pub fn get_attendance_summary(
        &self,
        store: &MemoryStore,
        start_date: String,
        end_date: String,
        today: Date,
    ) -> (result: Result<AttendanceReport, ReportError>)
        requires
            store@.attendance.rows.len() <= i64::MAX,
        ensures
            match range_of(date_in_text(start_date@), date_in_text(end_date@)) {
                Ok(range) => if store@.directory.reachable {
                    result matches Ok(report) && is_report(
                        store@.directory.members,
                        store@.attendance.rows,
                        range,
                        today,
                        report,
                    ) && ids_rise(store@.directory.members)
                } else {
                    result matches Err(f) && f == ReportError::RosterUnavailable
                },
                Err(e) => result matches Err(f) && f == e,
            },
            reads_back(start_date@),
            reads_back(end_date@),
    {
        let range = match parse_range(start_date.as_str(), end_date.as_str()) {
            Ok(range) => range,
            Err(e) => {
                return Err(e);
            },
        };
        let members = match store.directory.fetch_all() {
            Ok(members) => members,
            Err(_) => {
                return Err(ReportError::RosterUnavailable);
            },
        };
        Ok(build_report(&members, store.attendance.rows(), range, today))
    }
}

impl Default for AttendanceQueries {
    fn default() -> (queries: AttendanceQueries)
        ensures
            queries == AttendanceQueries,
    {
        AttendanceQueries
    }
}

} // verus!
