//! A table with one row per member and day, kept in memory.
//!
//! An insert keeps the row that is already there: the first writer wins. A
//! table can be told to refuse the writes of some members, or of all, which
//! stands for a store that cannot be reached.

use crate::calendar::Date;
use crate::models::DayRow;
use vstd::prelude::*;

verus! {

/// Whether `rows` has a row of `member_id` for `date`.
pub open spec fn holds<R: DayRow>(rows: Seq<R>, member_id: i32, date: Date) -> bool {
    exists|i: int|
        0 <= i < rows.len() && (#[trigger] rows[i]).member() == member_id && rows[i].day() == date
}

/// No member has two rows for one day.
pub open spec fn one_per_key<R: DayRow>(rows: Seq<R>) -> bool {
    forall|i: int, j: int|
        0 <= i < j < rows.len() ==> !((#[trigger] rows[i]).member() == (#[trigger] rows[j]).member()
            && rows[i].day() == rows[j].day())
}

/// `rows` after an insert of `row` that keeps what is there.
pub open spec fn put_if_absent<R: DayRow>(rows: Seq<R>, row: R) -> Seq<R> {
    if holds(rows, row.member(), row.day()) {
        rows
    } else {
        rows.push(row)
    }
}

/// Whose writes a table refuses.
#[derive(Debug, PartialEq, Eq)]
pub enum Refusal {
    /// Every write is taken.
    Nobody,
    /// No write is taken.
    Everybody,
    /// The writes of these members are refused.
    Members(Vec<i32>),
}

impl Refusal {
    /// The members whose writes are refused.
    pub open spec fn refused(&self) -> Set<i32> {
        match self {
            Refusal::Nobody => Set::empty(),
            Refusal::Everybody => Set::full(),
            Refusal::Members(ids) => ids@.to_set(),
        }
    }

    /// Whether the writes of `member_id` are refused.
    pub fn refuses(&self, member_id: i32) -> (refused: bool)
        ensures
            refused == self.refused().contains(member_id),
    {
        match self {
            Refusal::Nobody => false,
            Refusal::Everybody => true,
            Refusal::Members(ids) => {
                let mut i: usize = 0;
                while i < ids.len()
                    invariant
                        i <= ids.len(),
                        self.refused() == ids@.to_set(),
                        forall|k: int| 0 <= k < i ==> ids[k] != member_id,
                    decreases ids.len() - i,
                {
                    if ids[i] == member_id {
                        return true;
                    }
                    i += 1;
                }
                false
            },
        }
    }
}

/// How an insert ended.
#[derive(Debug, PartialEq, Eq)]
pub enum InsertOutcome {
    /// The row was written.
    Inserted,
    /// A row for this member and day was there already, and stays as it was.
    AlreadyExists,
    /// The store did not take the write; the text says why.
    Failed(String),
}

/// What a [`Table`] holds: its rows in the order they came, and whose writes it refuses.
pub struct TableState<R> {
    pub rows: Seq<R>,
    pub refused: Set<i32>,
}

/// A table with at most one row per member and day.
pub struct Table<R: DayRow> {
    rows: Vec<R>,
    refusal: Refusal,
}

impl<R: DayRow> View for Table<R> {
    type V = TableState<R>;

    closed spec fn view(&self) -> TableState<R> {
        TableState { rows: self.rows@, refused: self.refusal.refused() }
    }
}

/// The text with which a table refuses a write.
pub open spec fn refusal_text() -> Seq<char> {
    "the table refused the write"@
}

impl<R: DayRow> Table<R> {
    /// What every table meets: no member has two rows for one day.
    #[verifier::type_invariant]
    pub closed spec fn keyed(self) -> bool {
        one_per_key(self.rows@)
    }

    /// An empty table that takes every write.
    pub fn new() -> (table: Table<R>)
        ensures
            table@.rows == Seq::<R>::empty(),
            table@.refused == Set::<i32>::empty(),
    {
        Table { rows: Vec::new(), refusal: Refusal::Nobody }
    }

    /// Sets whose writes the table refuses from now on.
    pub fn refuse(&mut self, refusal: Refusal)
        ensures
            final(self)@.rows == old(self)@.rows,
            final(self)@.refused == refusal.refused(),
    {
        let mut held = Table::new();
        core::mem::swap(self, &mut held);
        proof {
            use_type_invariant(&held);
        }
        let Table { rows, refusal: _ } = held;
        *self = Table { rows, refusal };
    }

    /// The rows, in the order they came.
    pub fn rows(&self) -> (rows: &Vec<R>)
        ensures
            rows@ == self@.rows,
            one_per_key(rows@),
    {
        proof {
            use_type_invariant(self);
        }
        &self.rows
    }

    /// Whether there is a row of `member_id` for `date`.
    pub fn has_row(&self, member_id: i32, date: Date) -> (found: bool)
        ensures
            found == holds(self@.rows, member_id, date),
    {
        let mut i: usize = 0;
        while i < self.rows.len()
            invariant
                i <= self.rows.len(),
                forall|k: int|
                    0 <= k < i ==> !((#[trigger] self.rows[k]).member() == member_id
                        && self.rows[k].day() == date),
            decreases self.rows.len() - i,
        {
            if self.rows[i].member_id() == member_id && self.rows[i].date() == date {
                return true;
            }
            i += 1;
        }
        false
    }

    /// Writes `row` unless the table refuses the member's writes or has a
    /// row for that member and day already.
    pub fn insert_if_absent(&mut self, row: R) -> (outcome: InsertOutcome)
        ensures
            final(self)@.refused == old(self)@.refused,
            old(self)@.refused.contains(row.member()) ==> final(self)@.rows == old(self)@.rows && (
            outcome matches InsertOutcome::Failed(cause) && cause@ == refusal_text()),
            !old(self)@.refused.contains(row.member()) ==> final(self)@.rows == put_if_absent(
                old(self)@.rows,
                row,
            ) && if holds(old(self)@.rows, row.member(), row.day()) {
                outcome is AlreadyExists
            } else {
                outcome is Inserted
            },
    {
        proof {
            use_type_invariant(&*self);
        }
        if self.refusal.refuses(row.member_id()) {
            return InsertOutcome::Failed("the table refused the write".to_string());
        }
        if self.has_row(row.member_id(), row.date()) {
            return InsertOutcome::AlreadyExists;
        }
        let mut held = Table::new();
        core::mem::swap(self, &mut held);
        let Table { mut rows, refusal } = held;
        rows.push(row);
        *self = Table { rows, refusal };
        InsertOutcome::Inserted
    }
}

} // verus!
