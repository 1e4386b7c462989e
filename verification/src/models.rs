//! The rows of the store and the parts of the attendance report.

use crate::calendar::{Date, TimeOfDay};
use vstd::prelude::*;

verus! {

/// A member of the club, as the member directory lists them.
#[derive(Debug, PartialEq, Eq)]
pub struct Member {
    pub member_id: i32,
    pub name: String,
    pub year: i32,
}

impl Clone for Member {
    fn clone(&self) -> (copy: Member)
        ensures
            copy == *self,
    {
        Member { member_id: self.member_id, name: self.name.clone(), year: self.year }
    }
}

/// One member's attendance on one day. At most one exists per member and day.
#[derive(Clone, Copy, Debug, PartialEq, Eq)]
pub struct AttendanceRecord {
    pub member_id: i32,
    pub date: Date,
    pub is_present: bool,
    pub time_in: Option<TimeOfDay>,
    pub time_out: Option<TimeOfDay>,
}

/// Whether one member's status update for one day has come in. At most one
/// exists per member and day.
#[derive(Clone, Copy, Debug, PartialEq, Eq)]
pub struct StatusUpdateRecord {
    pub member_id: i32,
    pub date: Date,
    pub is_updated: bool,
}

/// One member's attended days in one month.
#[derive(Clone, Copy, Debug, PartialEq, Eq)]
pub struct AttendanceSummary {
    pub member_id: i32,
    pub year: i32,
    pub month: i32,
    pub days_attended: i32,
}

/// Attended days in one month.
#[derive(Clone, Copy, Debug, PartialEq, Eq)]
pub struct AttendanceSummaryInfo {
    pub year: i32,
    pub month: i32,
    pub days_attended: i32,
}

/// How many members were present on one day.
#[derive(Debug, PartialEq, Eq)]
pub struct DailyCount {
    pub date: String,
    pub count: i64,
}

/// On how many days one member was present.
#[derive(Debug, PartialEq, Eq)]
pub struct MemberAttendanceSummary {
    pub id: i32,
    pub name: String,
    pub present_days: i64,
}

/// The attendance report: per day, per member, and the number of days on
/// which anyone was present.
#[derive(Debug, PartialEq, Eq)]
pub struct AttendanceReport {
    pub daily_count: Vec<DailyCount>,
    pub member_attendance: Vec<MemberAttendanceSummary>,
    pub max_days: i64,
}

/// The two tables that hold a row per member and day.
#[derive(Clone, Copy, Debug, PartialEq, Eq, Structural)]
pub enum TableName {
    Attendance,
    StatusUpdateHistory,
}

/// A row that belongs to one member and one day.
pub trait DayRow: Copy {
    /// The table such rows are kept in.
    spec fn table() -> TableName;

    /// The member the row belongs to.
    spec fn member(self) -> i32;

    /// The day the row belongs to.
    spec fn day(self) -> Date;

    /// The row that says nothing has been seen of `member_id` on `date` yet.
    spec fn pending(member_id: i32, date: Date) -> Self;

    /// The pending row of a member and day belongs to that member and day.
    proof fn lemma_pending(member_id: i32, date: Date)
        ensures
            Self::pending(member_id, date).member() == member_id,
            Self::pending(member_id, date).day() == date,
    ;

    /// The member the row belongs to.
    fn member_id(&self) -> (id: i32)
        ensures
            id == self.member(),
    ;

    /// The day the row belongs to.
    fn date(&self) -> (date: Date)
        ensures
            date == self.day(),
    ;

    /// The row that says nothing has been seen of `member_id` on `date` yet.
    fn new_pending(member_id: i32, date: Date) -> (row: Self)
        ensures
            row == Self::pending(member_id, date),
    ;

    /// The table such rows are kept in.
    fn table_name() -> (table: TableName)
        ensures
            table == Self::table(),
    ;
}

impl DayRow for AttendanceRecord {
    open spec fn table() -> TableName {
        TableName::Attendance
    }

    open spec fn member(self) -> i32 {
        self.member_id
    }

    open spec fn day(self) -> Date {
        self.date
    }

    open spec fn pending(member_id: i32, date: Date) -> Self {
        AttendanceRecord { member_id, date, is_present: false, time_in: None, time_out: None }
    }

    proof fn lemma_pending(member_id: i32, date: Date) {
    }

    fn member_id(&self) -> (id: i32) {
        self.member_id
    }

    fn date(&self) -> (date: Date) {
        self.date
    }

    fn new_pending(member_id: i32, date: Date) -> (row: Self) {
        AttendanceRecord { member_id, date, is_present: false, time_in: None, time_out: None }
    }

    fn table_name() -> (table: TableName) {
        TableName::Attendance
    }
}

impl DayRow for StatusUpdateRecord {
    open spec fn table() -> TableName {
        TableName::StatusUpdateHistory
    }

    open spec fn member(self) -> i32 {
        self.member_id
    }

    open spec fn day(self) -> Date {
        self.date
    }

    open spec fn pending(member_id: i32, date: Date) -> Self {
        StatusUpdateRecord { member_id, date, is_updated: false }
    }

    proof fn lemma_pending(member_id: i32, date: Date) {
    }

    fn member_id(&self) -> (id: i32) {
        self.member_id
    }

    fn date(&self) -> (date: Date) {
        self.date
    }

    fn new_pending(member_id: i32, date: Date) -> (row: Self) {
        StatusUpdateRecord { member_id, date, is_updated: false }
    }

    fn table_name() -> (table: TableName) {
        TableName::StatusUpdateHistory
    }
}

} // verus!
