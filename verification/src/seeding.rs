//! Seeding a table with one pending row per member.
//!
//! A [`Seeder`] walks the roster once. It names the row to insert next, takes
//! the outcome of that insert, and goes on to the next member whatever the
//! outcome was: one member's failure never keeps the others from their rows.
//! Nothing is tried twice. [`seed_table`] runs a seeder against a [`Table`].

use crate::calendar::Date;
use crate::models::{DayRow, Member, TableName};
use crate::table::{put_if_absent, InsertOutcome, Table};
use core::marker::PhantomData;
use vstd::prelude::*;

verus! {

/// The members' ids, in the order of the roster.
pub open spec fn member_ids(members: Seq<Member>) -> Seq<i32> {
    Seq::new(members.len(), |i: int| members[i].member_id)
}

/// `rows` after one pass over `ids`: each member whose writes are not
/// refused gets the pending row for `today` unless a row for that member and
/// day is there already.
pub open spec fn seeded<R: DayRow>(rows: Seq<R>, ids: Seq<i32>, today: Date, refused: Set<i32>)
    -> Seq<R>
    decreases ids.len(),
{
    if ids.len() == 0 {
        rows
    } else {
        let before = seeded(rows, ids.drop_last(), today, refused);
        if refused.contains(ids.last()) {
            before
        } else {
            put_if_absent(before, R::pending(ids.last(), today))
        }
    }
}

/// What a run writes down about its work.
#[derive(Debug, PartialEq, Eq)]
pub enum LogEvent {
    /// The roster could not be read; nothing was seeded.
    RosterFetchFailed { cause: String },
    /// The member has a row in the table now.
    RowSeeded { table: TableName, member_id: i32 },
    /// The insert for the member failed.
    RowFailed { table: TableName, member_id: i32, cause: String },
}

/// A [`LogEvent`] with its texts as sequences of characters.
pub enum LogEntry {
    RosterFetchFailed { cause: Seq<char> },
    RowSeeded { table: TableName, member_id: i32 },
    RowFailed { table: TableName, member_id: i32, cause: Seq<char> },
}

impl View for LogEvent {
    type V = LogEntry;

    open spec fn view(&self) -> LogEntry {
        match self {
            LogEvent::RosterFetchFailed { cause } => LogEntry::RosterFetchFailed { cause: cause@ },
            LogEvent::RowSeeded { table, member_id } => LogEntry::RowSeeded {
                table: *table,
                member_id: *member_id,
            },
            LogEvent::RowFailed { table, member_id, cause } => LogEntry::RowFailed {
                table: *table,
                member_id: *member_id,
                cause: cause@,
            },
        }
    }
}

/// The log entry for an insert of `member_id`'s row into `table` that ended in `outcome`.
pub open spec fn entry_for(table: TableName, member_id: i32, outcome: InsertOutcome) -> LogEntry {
    match outcome {
        InsertOutcome::Failed(cause) => LogEntry::RowFailed { table, member_id, cause: cause@ },
        _ => LogEntry::RowSeeded { table, member_id },
    }
}

/// Where a [`Seeder`] stands: the roster's ids, the day, and how many members are done.
pub struct SeederState {
    pub ids: Seq<i32>,
    pub today: Date,
    pub done: nat,
}

impl SeederState {
    /// The row to insert next, if any member is left.
    pub open spec fn next_row<R: DayRow>(self) -> Option<R> {
        if self.done < self.ids.len() {
            Some(R::pending(self.ids[self.done as int], self.today))
        } else {
            None
        }
    }

    /// The state after the pending insert has come back.
    pub open spec fn advanced(self) -> SeederState {
        if self.done < self.ids.len() {
            SeederState { done: self.done + 1, ..self }
        } else {
            self
        }
    }
}

/// One pass over the roster for one table.
pub struct Seeder<R: DayRow> {
    ids: Vec<i32>,
    today: Date,
    done: usize,
    row: PhantomData<R>,
}

impl<R: DayRow> View for Seeder<R> {
    type V = SeederState;

    closed spec fn view(&self) -> SeederState {
        SeederState { ids: self.ids@, today: self.today, done: self.done as nat }
    }
}

impl<R: DayRow> Seeder<R> {
    /// What every seeder meets: it is done with no more members than the roster has.
    #[verifier::type_invariant]
    pub closed spec fn in_bounds(self) -> bool {
        self.done <= self.ids.len()
    }

    /// A seeder at the start of `members`, for the day `today`.
    pub fn new(members: &Vec<Member>, today: Date) -> (seeder: Seeder<R>)
        ensures
            seeder@ == (SeederState { ids: member_ids(members@), today, done: 0 }),
    {
        let mut ids: Vec<i32> = Vec::new();
        let mut i: usize = 0;
        while i < members.len()
            invariant
                i <= members.len(),
                ids@ == member_ids(members@).take(i as int),
            decreases members.len() - i,
        {
            ids.push(members[i].member_id);
            i += 1;
        }
        assert(ids@ =~= member_ids(members@));
        Seeder { ids, today, done: 0, row: PhantomData }
    }

    /// The row to insert next, or `None` when every member has had their turn.
    pub fn pending(&self) -> (row: Option<R>)
        ensures
            row == self@.next_row::<R>(),
            self@.done <= self@.ids.len(),
    {
        proof {
            use_type_invariant(self);
        }
        if self.done < self.ids.len() {
            Some(R::new_pending(self.ids[self.done], self.today))
        } else {
            None
        }
    }

    /// Takes the outcome of the pending insert and moves on to the next
    /// member. Returns the line to log, or `None` where no insert was pending.
    pub fn record(&mut self, outcome: InsertOutcome) -> (line: Option<LogEvent>)
        ensures
            final(self)@ == old(self)@.advanced(),
            old(self)@.done < old(self)@.ids.len() ==> (line matches Some(event) && event@
                == entry_for(R::table(), old(self)@.ids[old(self)@.done as int], outcome)),
            old(self)@.done >= old(self)@.ids.len() ==> line is None,
    {
        proof {
            use_type_invariant(&*self);
        }
        if self.done >= self.ids.len() {
            return None;
        }
        let member_id = self.ids[self.done];
        self.done = self.done + 1;
        let table = R::table_name();
        Some(
            match outcome {
                InsertOutcome::Failed(cause) => LogEvent::RowFailed { table, member_id, cause },
                _ => LogEvent::RowSeeded { table, member_id },
            },
        )
    }
}

/// The log entry for `member_id` in a pass over a table that refuses the
/// writes of `refused`.
pub open spec fn pass_entry(table: TableName, member_id: i32, refused: Set<i32>) -> LogEntry {
    if refused.contains(member_id) {
        LogEntry::RowFailed { table, member_id, cause: crate::table::refusal_text() }
    } else {
        LogEntry::RowSeeded { table, member_id }
    }
}

/// One more member seeded is one more insert on what the members before left.
pub proof fn lemma_seeded_step<R: DayRow>(
    rows: Seq<R>,
    ids: Seq<i32>,
    today: Date,
    refused: Set<i32>,
    n: int,
)
    requires
        0 <= n < ids.len(),
    ensures
        seeded(rows, ids.take(n + 1), today, refused) == if refused.contains(ids[n]) {
            seeded(rows, ids.take(n), today, refused)
        } else {
            put_if_absent(seeded(rows, ids.take(n), today, refused), R::pending(ids[n], today))
        },
{
    assert(ids.take(n + 1).drop_last() =~= ids.take(n));
}

/// Runs `seeder` to its end against `table`: one insert per member that is
/// left, in the order of the roster, and one log line per insert. A member
/// whose insert fails is logged and passed over.
pub fn run_seeder<R: DayRow>(seeder: Seeder<R>, table: &mut Table<R>) -> (log: Vec<LogEvent>)
    ensures
        final(table)@.refused == old(table)@.refused,
        final(table)@.rows == seeded(
            old(table)@.rows,
            seeder@.ids.skip(seeder@.done as int),
            seeder@.today,
            old(table)@.refused,
        ),
        log@.len() == seeder@.ids.len() - seeder@.done,
        forall|i: int|
            0 <= i < log@.len() ==> (#[trigger] log@[i])@ == pass_entry(
                R::table(),
                seeder@.ids[seeder@.done + i],
                old(table)@.refused,
            ),
{
    let mut seeder = seeder;
    let mut log: Vec<LogEvent> = Vec::new();
    let ghost start = table@;
    let ghost first = seeder@.done as int;
    let ghost today = seeder@.today;
    let ghost ids = seeder@.ids;
    let ghost left = seeder@.ids.skip(seeder@.done as int);
    proof {
        use_type_invariant(&seeder);
    }
    loop
        invariant
            seeder@.ids == ids,
            seeder@.today == today,
            0 <= first <= seeder@.done <= ids.len(),
            left == ids.skip(first),
            table@.refused == start.refused,
            table@.rows == seeded(
                start.rows,
                left.take(seeder@.done - first),
                today,
                start.refused,
            ),
            log@.len() == seeder@.done - first,
            forall|i: int|
                0 <= i < log@.len() ==> (#[trigger] log@[i])@ == pass_entry(
                    R::table(),
                    ids[first + i],
                    start.refused,
                ),
        ensures
            seeder@.done == ids.len(),
        decreases ids.len() - seeder@.done,
    {
        let row = match seeder.pending() {
            Some(row) => row,
            None => {
                break ;
            },
        };
        proof {
            R::lemma_pending(ids[seeder@.done as int], today);
            lemma_seeded_step::<R>(start.rows, left, today, start.refused, seeder@.done - first);
        }
        let outcome = table.insert_if_absent(row);
        match seeder.record(outcome) {
            Some(line) => {
                log.push(line);
            },
            None => {},
        }
    }
    assert(left.take(left.len() as int) =~= left);
    log
}

/// Seeds `table` with the pending row for `today` of every member of the
/// roster, and returns one log line per member.
pub fn seed_table<R: DayRow>(members: &Vec<Member>, today: Date, table: &mut Table<R>) -> (log: Vec<
    LogEvent,
>)
    ensures
        final(table)@.refused == old(table)@.refused,
        final(table)@.rows == seeded(
            old(table)@.rows,
            member_ids(members@),
            today,
            old(table)@.refused,
        ),
        log@.len() == members@.len(),
        forall|i: int|
            0 <= i < log@.len() ==> (#[trigger] log@[i])@ == pass_entry(
                R::table(),
                member_ids(members@)[i],
                old(table)@.refused,
            ),
{
    let seeder: Seeder<R> = Seeder::new(members, today);
    assert(seeder@.ids.skip(0) =~= seeder@.ids);
    run_seeder(seeder, table)
}

} // verus!
