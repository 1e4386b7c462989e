//! The daily task: read the roster, then seed the attendance table and the
//! status update table for the day.
//!
//! A roster that cannot be read ends the run before anything is written. The
//! two tables are seeded one after the other from the same roster, and what
//! happens to one has no bearing on the other.

use crate::calendar::Date;
use crate::models::{AttendanceRecord, Member, StatusUpdateRecord, TableName};
use crate::seeding::{member_ids, pass_entry, run_seeder, seed_table, seeded};
use crate::seeding::{LogEntry, LogEvent, Seeder, SeederState};
use crate::store::{unreachable_text, MemoryStore, StoreState};
use crate::table::TableState;
use vstd::prelude::*;

verus! {

/// What a run is to do once the roster has been asked for.
pub enum CyclePlan {
    /// The roster could not be read: log this and end the run.
    Abort(LogEvent),
    /// Seed both tables from the roster.
    Seed { attendance: Seeder<AttendanceRecord>, status_updates: Seeder<StatusUpdateRecord> },
}

/// Decides what a run for `today` does with the answer of the member
/// directory: with a roster, one seeder per table, both at the start of that
/// roster; without one, nothing but a log line.
pub fn plan_cycle(roster: Result<Vec<Member>, String>, today: Date) -> (plan: CyclePlan)
    ensures
        match roster {
            Ok(members) => plan matches CyclePlan::Seed { attendance, status_updates }
                && attendance@ == (SeederState { ids: member_ids(members@), today, done: 0 })
                && status_updates@ == (SeederState { ids: member_ids(members@), today, done: 0 }),
            Err(cause) => plan matches CyclePlan::Abort(line) && line@ == (
            LogEntry::RosterFetchFailed { cause: cause@ }),
        },
{
    match roster {
        Ok(members) => CyclePlan::Seed {
            attendance: Seeder::new(&members, today),
            status_updates: Seeder::new(&members, today),
        },
        Err(cause) => CyclePlan::Abort(LogEvent::RosterFetchFailed { cause }),
    }
}

/// Gives every member of the roster a pending attendance row for `today`.
pub fn update_attendance(members: &Vec<Member>, today: Date, store: &mut MemoryStore) -> (log: Vec<
    LogEvent,
>)
    ensures
        final(store)@.directory == old(store)@.directory,
        final(store)@.status_updates == old(store)@.status_updates,
        final(store)@.attendance.refused == old(store)@.attendance.refused,
        final(store)@.attendance.rows == seeded(
            old(store)@.attendance.rows,
            member_ids(members@),
            today,
            old(store)@.attendance.refused,
        ),
        log@.len() == members@.len(),
        forall|i: int|
            0 <= i < log@.len() ==> (#[trigger] log@[i])@ == pass_entry(
                TableName::Attendance,
                member_ids(members@)[i],
                old(store)@.attendance.refused,
            ),
{
    seed_table(members, today, &mut store.attendance)
}

/// Gives every member of the roster a pending status update row for `today`.
pub fn update_status_history(members: &Vec<Member>, today: Date, store: &mut MemoryStore) -> (log:
    Vec<LogEvent>)
    ensures
        final(store)@.directory == old(store)@.directory,
        final(store)@.attendance == old(store)@.attendance,
        final(store)@.status_updates.refused == old(store)@.status_updates.refused,
        final(store)@.status_updates.rows == seeded(
            old(store)@.status_updates.rows,
            member_ids(members@),
            today,
            old(store)@.status_updates.refused,
        ),
        log@.len() == members@.len(),
        forall|i: int|
            0 <= i < log@.len() ==> (#[trigger] log@[i])@ == pass_entry(
                TableName::StatusUpdateHistory,
                member_ids(members@)[i],
                old(store)@.status_updates.refused,
            ),
{
    seed_table(members, today, &mut store.status_updates)
}

/// A table after one pass over the roster `ids`.
pub open spec fn table_after<R: crate::models::DayRow>(
    table: TableState<R>,
    ids: Seq<i32>,
    today: Date,
) -> TableState<R> {
    TableState { rows: seeded(table.rows, ids, today, table.refused), refused: table.refused }
}

/// The store after one run of the daily task for `today`.
pub open spec fn cycle(store: StoreState, today: Date) -> StoreState {
    if store.directory.reachable {
        let ids = member_ids(store.directory.members);
        StoreState {
            directory: store.directory,
            attendance: table_after(store.attendance, ids, today),
            status_updates: table_after(store.status_updates, ids, today),
        }
    } else {
        store
    }
}

/// The `i`-th line that a run of the daily task on `store` logs.
pub open spec fn cycle_entry(store: StoreState, i: int) -> LogEntry {
    let ids = member_ids(store.directory.members);
    if !store.directory.reachable {
        LogEntry::RosterFetchFailed { cause: unreachable_text() }
    } else if i < ids.len() {
        pass_entry(TableName::Attendance, ids[i], store.attendance.refused)
    } else {
        pass_entry(TableName::StatusUpdateHistory, ids[i - ids.len()], store.status_updates.refused)
    }
}

/// How many lines a run of the daily task on `store` logs.
pub open spec fn cycle_lines(store: StoreState) -> nat {
    if store.directory.reachable {
        2 * store.directory.members.len()
    } else {
        1
    }
}

/// One run of the daily task for `today`: reads the roster and seeds both
/// tables from it. Returns what the run logs: one line per insert, the
/// attendance table's first, or the one line that says the roster could not
/// be read.
pub fn execute_daily_task(store: &mut MemoryStore, today: Date) -> (log: Vec<LogEvent>)
    ensures
        final(store)@ == cycle(old(store)@, today),
        log@.len() == cycle_lines(old(store)@),
        forall|i: int| 0 <= i < log@.len() ==> (#[trigger] log@[i])@ == cycle_entry(old(store)@, i),
{
    let roster = store.directory.fetch_all();
    let ghost members = store@.directory.members;
    match plan_cycle(roster, today) {
        CyclePlan::Abort(line) => {
            let mut log: Vec<LogEvent> = Vec::new();
            log.push(line);
            log
        },
        CyclePlan::Seed { attendance, status_updates } => {
            assert(attendance@.ids.skip(0) =~= attendance@.ids);
            let mut log = run_seeder(attendance, &mut store.attendance);
            let mut more = run_seeder(status_updates, &mut store.status_updates);
            log.append(&mut more);
            log
        },
    }
}

} // verus!
