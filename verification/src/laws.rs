//! What holds of the daily task, whatever the tables held before and
//! whoever's writes were refused, and what holds of the loop that runs it.

use crate::bootstrap::cycle;
use crate::calendar::Date;
use crate::clock::Instant;
use crate::models::DayRow;
use crate::schedule::{command_for, in_turn, seconds_until};
use crate::schedule::{CycleState, ScheduleError, SchedulerEvent, TriggerConfig};
use crate::seeding::{member_ids, seeded};
use crate::store::StoreState;
use crate::table::{holds, one_per_key, put_if_absent};
use vstd::prelude::*;

verus! {

/// Seeding leaves every row that was there where it was, as it was: what it
/// writes comes after them.
pub proof fn lemma_rows_stay<R: DayRow>(rows: Seq<R>, ids: Seq<i32>, today: Date, refused: Set<i32>)
    ensures
        rows.is_prefix_of(seeded(rows, ids, today, refused)),
    decreases ids.len(),
{
    if ids.len() > 0 {
        lemma_rows_stay(rows, ids.drop_last(), today, refused);
    }
}

/// A member who had a row for a day before seeding has one after it.
pub proof fn lemma_held_stays_held<R: DayRow>(
    rows: Seq<R>,
    ids: Seq<i32>,
    today: Date,
    refused: Set<i32>,
    member_id: i32,
    date: Date,
)
    requires
        holds(rows, member_id, date),
    ensures
        holds(seeded(rows, ids, today, refused), member_id, date),
{
    lemma_rows_stay(rows, ids, today, refused);
    let after = seeded(rows, ids, today, refused);
    let i = choose|i: int|
        0 <= i < rows.len() && (#[trigger] rows[i]).member() == member_id && rows[i].day() == date;
    assert(after[i] == rows[i]);
}

/// Seeding never gives a member a second row for a day.
pub proof fn lemma_one_row_per_key<R: DayRow>(
    rows: Seq<R>,
    ids: Seq<i32>,
    today: Date,
    refused: Set<i32>,
)
    requires
        one_per_key(rows),
    ensures
        one_per_key(seeded(rows, ids, today, refused)),
    decreases ids.len(),
{
    if ids.len() > 0 {
        lemma_one_row_per_key(rows, ids.drop_last(), today, refused);
        R::lemma_pending(ids.last(), today);
    }
}

/// After seeding, every member of the roster whose writes were not refused
/// has a row for the day.
pub proof fn lemma_roster_covered<R: DayRow>(
    rows: Seq<R>,
    ids: Seq<i32>,
    today: Date,
    refused: Set<i32>,
)
    ensures
        forall|i: int|
            0 <= i < ids.len() && !refused.contains(#[trigger] ids[i]) ==> holds(
                seeded(rows, ids, today, refused),
                ids[i],
                today,
            ),
    decreases ids.len(),
{
    if ids.len() > 0 {
        let before = seeded(rows, ids.drop_last(), today, refused);
        let after = seeded(rows, ids, today, refused);
        lemma_roster_covered(rows, ids.drop_last(), today, refused);
        R::lemma_pending(ids.last(), today);
        assert forall|i: int| 0 <= i < ids.len() && !refused.contains(#[trigger] ids[i]) implies holds(
            after,
            ids[i],
            today,
        ) by {
            if i < ids.len() - 1 {
                assert(ids.drop_last()[i] == ids[i]);
                let k = choose|k: int|
                    0 <= k < before.len() && (#[trigger] before[k]).member() == ids[i]
                        && before[k].day() == today;
                assert(after[k] == before[k]);
            } else if !holds(before, ids.last(), today) {
                assert(after[before.len() as int] == R::pending(ids.last(), today));
            }
        }
    }
}

/// A row that seeding wrote is a row for the day, of a member of the roster
/// whose writes were not refused.
pub proof fn lemma_only_the_roster<R: DayRow>(
    rows: Seq<R>,
    ids: Seq<i32>,
    today: Date,
    refused: Set<i32>,
    member_id: i32,
    date: Date,
)
    requires
        holds(seeded(rows, ids, today, refused), member_id, date),
        !holds(rows, member_id, date),
    ensures
        date == today,
        ids.contains(member_id),
        !refused.contains(member_id),
    decreases ids.len(),
{
    if ids.len() > 0 {
        let before = seeded(rows, ids.drop_last(), today, refused);
        let after = seeded(rows, ids, today, refused);
        R::lemma_pending(ids.last(), today);
        if holds(before, member_id, date) {
            lemma_only_the_roster(rows, ids.drop_last(), today, refused, member_id, date);
            let k = choose|k: int| 0 <= k < ids.drop_last().len() && ids.drop_last()[k] == member_id;
            assert(ids[k] == member_id);
        } else {
            let k = choose|k: int|
                0 <= k < after.len() && (#[trigger] after[k]).member() == member_id && after[k].day()
                    == date;
            if k < before.len() {
                assert(before[k] == after[k]);
            }
            assert(ids[ids.len() - 1] == member_id);
        }
    }
}

/// Where every member of the roster either has a row for the day or has
/// their writes refused, seeding changes nothing.
pub proof fn lemma_nothing_to_do<R: DayRow>(
    rows: Seq<R>,
    ids: Seq<i32>,
    today: Date,
    refused: Set<i32>,
)
    requires
        forall|i: int|
            0 <= i < ids.len() && !refused.contains(#[trigger] ids[i]) ==> holds(
                rows,
                ids[i],
                today,
            ),
    ensures
        seeded(rows, ids, today, refused) == rows,
    decreases ids.len(),
{
    if ids.len() > 0 {
        assert forall|i: int|
            0 <= i < ids.drop_last().len() && !refused.contains(
                #[trigger] ids.drop_last()[i],
            ) implies holds(rows, ids.drop_last()[i], today) by {
            assert(ids.drop_last()[i] == ids[i]);
        }
        lemma_nothing_to_do(rows, ids.drop_last(), today, refused);
        R::lemma_pending(ids.last(), today);
        assert(ids.last() == ids[ids.len() - 1]);
    }
}

/// The rows that a pass writes: the pending row for the day of each member
/// of the roster whose writes are not refused and who has no row for the day.
pub open spec fn written<R: DayRow>(rows: Seq<R>, ids: Seq<i32>, today: Date, refused: Set<i32>)
    -> Set<R> {
    Set::new(
        |row: R|
            exists|i: int|
                0 <= i < ids.len() && !refused.contains(#[trigger] ids[i]) && !holds(
                    rows,
                    ids[i],
                    today,
                ) && row == R::pending(ids[i], today),
    )
}

/// The rows after a pass are the rows from before and the rows it writes,
/// whatever the order of the roster.
pub proof fn lemma_rows_after_a_pass<R: DayRow>(
    rows: Seq<R>,
    ids: Seq<i32>,
    today: Date,
    refused: Set<i32>,
)
    ensures
        seeded(rows, ids, today, refused).to_set() == rows.to_set().union(
            written(rows, ids, today, refused),
        ),
    decreases ids.len(),
{
    let after = seeded(rows, ids, today, refused);
    let target = rows.to_set().union(written(rows, ids, today, refused));
    if ids.len() == 0 {
        assert(after.to_set() =~= target);
    } else {
        let front = ids.drop_last();
        let last = ids.last();
        let before = seeded(rows, front, today, refused);
        let row = R::pending(last, today);
        lemma_rows_after_a_pass(rows, front, today, refused);
        lemma_rows_stay(rows, front, today, refused);
        R::lemma_pending(last, today);
        assert(ids[ids.len() - 1] == last);
        assert forall|r: R| after.to_set().contains(r) implies target.contains(r) by {
            if before.to_set().contains(r) {
                if !rows.to_set().contains(r) {
                    let k = choose|k: int|
                        0 <= k < front.len() && !refused.contains(#[trigger] front[k]) && !holds(
                            rows,
                            front[k],
                            today,
                        ) && r == R::pending(front[k], today);
                    assert(ids[k] == front[k]);
                }
            } else {
                let k = choose|k: int| 0 <= k < after.len() && after[k] == r;
                if k < before.len() {
                    assert(before[k] == r);
                    assert(before.to_set().contains(r));
                }
                assert(r == row);
                if holds(rows, last, today) {
                    let j = choose|j: int|
                        0 <= j < rows.len() && (#[trigger] rows[j]).member() == last
                            && rows[j].day() == today;
                    assert(before[j] == rows[j]);
                }
            }
        }
        assert forall|r: R| target.contains(r) implies after.to_set().contains(r) by {
            if rows.to_set().contains(r) {
                let j = choose|j: int| 0 <= j < rows.len() && rows[j] == r;
                assert(before[j] == rows[j]);
                assert(after[j] == r);
            } else {
                let k = choose|k: int|
                    0 <= k < ids.len() && !refused.contains(#[trigger] ids[k]) && !holds(
                        rows,
                        ids[k],
                        today,
                    ) && r == R::pending(ids[k], today);
                if k < front.len() {
                    assert(front[k] == ids[k]);
                    assert(written(rows, front, today, refused).contains(r));
                    assert(before.to_set().contains(r));
                    let j = choose|j: int| 0 <= j < before.len() && before[j] == r;
                    assert(after[j] == r);
                } else if holds(before, last, today) {
                    let j = choose|j: int|
                        0 <= j < before.len() && (#[trigger] before[j]).member() == last
                            && before[j].day() == today;
                    assert(before.to_set().contains(before[j]));
                    if rows.to_set().contains(before[j]) {
                        let i = choose|i: int| 0 <= i < rows.len() && rows[i] == before[j];
                        assert(rows[i].member() == last);
                    } else {
                        let m = choose|m: int|
                            0 <= m < front.len() && !refused.contains(#[trigger] front[m])
                                && !holds(rows, front[m], today) && before[j] == R::pending(
                                front[m],
                                today,
                            );
                        R::lemma_pending(front[m], today);
                    }
                    assert(after[j] == r);
                } else {
                    assert(after[before.len() as int] == r);
                }
            }
        }
        assert(after.to_set() =~= target);
    }
}

/// The order of the roster does not matter to the rows a pass leaves: two
/// rosters with the same members give the same set of rows.
pub proof fn lemma_roster_order_is_free<R: DayRow>(
    rows: Seq<R>,
    one: Seq<i32>,
    other: Seq<i32>,
    today: Date,
    refused: Set<i32>,
)
    requires
        one.to_set() == other.to_set(),
    ensures
        seeded(rows, one, today, refused).to_set() == seeded(rows, other, today, refused).to_set(),
{
    lemma_rows_after_a_pass(rows, one, today, refused);
    lemma_rows_after_a_pass(rows, other, today, refused);
    let a = written(rows, one, today, refused);
    let b = written(rows, other, today, refused);
    assert forall|r: R| a.contains(r) <==> b.contains(r) by {
        if a.contains(r) {
            let i = choose|i: int|
                0 <= i < one.len() && !refused.contains(#[trigger] one[i]) && !holds(
                    rows,
                    one[i],
                    today,
                ) && r == R::pending(one[i], today);
            assert(one.to_set().contains(one[i]));
            let j = choose|j: int| 0 <= j < other.len() && other[j] == one[i];
            assert(!refused.contains(other[j]));
        }
        if b.contains(r) {
            let i = choose|i: int|
                0 <= i < other.len() && !refused.contains(#[trigger] other[i]) && !holds(
                    rows,
                    other[i],
                    today,
                ) && r == R::pending(other[i], today);
            assert(other.to_set().contains(other[i]));
            let j = choose|j: int| 0 <= j < one.len() && one[j] == other[i];
            assert(!refused.contains(one[j]));
        }
    }
    assert(a =~= b);
}

/// Without a roster a run writes nothing.
pub proof fn lemma_no_roster_no_rows(store: StoreState, today: Date)
    requires
        !store.directory.reachable,
    ensures
        cycle(store, today) == store,
{
}

/// Seeding a second time for the same day and roster writes nothing,
/// whatever the second pass refuses, provided no member who lacked a row and
/// was refused in the first pass is let through in the second.
pub proof fn lemma_second_pass_writes_nothing<R: DayRow>(
    rows: Seq<R>,
    ids: Seq<i32>,
    today: Date,
    first: Set<i32>,
    second: Set<i32>,
)
    requires
        forall|i: int|
            0 <= i < ids.len() && first.contains(#[trigger] ids[i]) && !second.contains(ids[i])
                ==> holds(rows, ids[i], today),
    ensures
        seeded(seeded(rows, ids, today, first), ids, today, second) == seeded(
            rows,
            ids,
            today,
            first,
        ),
{
    let once = seeded(rows, ids, today, first);
    lemma_roster_covered(rows, ids, today, first);
    assert forall|i: int| 0 <= i < ids.len() && !second.contains(#[trigger] ids[i]) implies holds(
        once,
        ids[i],
        today,
    ) by {
        if first.contains(ids[i]) {
            lemma_held_stays_held(rows, ids, today, first, ids[i], today);
        }
    }
    lemma_nothing_to_do(once, ids, today, second);
}

/// Seeding twice under the same conditions gives what seeding once gives.
pub proof fn lemma_seeding_idempotent<R: DayRow>(
    rows: Seq<R>,
    ids: Seq<i32>,
    today: Date,
    refused: Set<i32>,
)
    ensures
        seeded(seeded(rows, ids, today, refused), ids, today, refused) == seeded(
            rows,
            ids,
            today,
            refused,
        ),
{
    lemma_second_pass_writes_nothing(rows, ids, today, refused, refused);
}

/// Running the daily task twice for the same day gives the store that
/// running it once gives: the second run writes no row.
pub proof fn lemma_cycle_idempotent(store: StoreState, today: Date)
    ensures
        cycle(cycle(store, today), today) == cycle(store, today),
{
    if store.directory.reachable {
        let ids = member_ids(store.directory.members);
        lemma_seeding_idempotent(store.attendance.rows, ids, today, store.attendance.refused);
        lemma_seeding_idempotent(
            store.status_updates.rows,
            ids,
            today,
            store.status_updates.refused,
        );
    }
}

/// What a run does to one table does not depend on the other table: two
/// stores with the same roster and the same status update table have the
/// same status update table after a run, whatever their attendance tables
/// hold or refuse; and the same with the tables exchanged.
pub proof fn lemma_tables_independent(a: StoreState, b: StoreState, today: Date)
    requires
        a.directory == b.directory,
    ensures
        a.status_updates == b.status_updates ==> cycle(a, today).status_updates == cycle(
            b,
            today,
        ).status_updates,
        a.attendance == b.attendance ==> cycle(a, today).attendance == cycle(b, today).attendance,
{
}

/// If the attendance table refuses every member of the roster and the
/// status update table refuses none, a run leaves the attendance table as it
/// was and every member has a status update row for the day.
pub proof fn lemma_status_seeded_despite_attendance(store: StoreState, today: Date)
    requires
        store.directory.reachable,
        forall|i: int|
            0 <= i < store.directory.members.len() ==> store.attendance.refused.contains(
                #[trigger] member_ids(store.directory.members)[i],
            ) && !store.status_updates.refused.contains(member_ids(store.directory.members)[i]),
    ensures
        cycle(store, today).attendance == store.attendance,
        forall|i: int|
            0 <= i < store.directory.members.len() ==> holds(
                cycle(store, today).status_updates.rows,
                #[trigger] member_ids(store.directory.members)[i],
                today,
            ),
{
    let ids = member_ids(store.directory.members);
    lemma_nothing_to_do(store.attendance.rows, ids, today, store.attendance.refused);
    lemma_roster_covered(store.status_updates.rows, ids, today, store.status_updates.refused);
}

/// If the status update table refuses every member of the roster and the
/// attendance table refuses none, a run leaves the status update table as it
/// was and every member has an attendance row for the day.
pub proof fn lemma_attendance_seeded_despite_status(store: StoreState, today: Date)
    requires
        store.directory.reachable,
        forall|i: int|
            0 <= i < store.directory.members.len() ==> store.status_updates.refused.contains(
                #[trigger] member_ids(store.directory.members)[i],
            ) && !store.attendance.refused.contains(member_ids(store.directory.members)[i]),
    ensures
        cycle(store, today).status_updates == store.status_updates,
        forall|i: int|
            0 <= i < store.directory.members.len() ==> holds(
                cycle(store, today).attendance.rows,
                #[trigger] member_ids(store.directory.members)[i],
                today,
            ),
{
    let ids = member_ids(store.directory.members);
    lemma_nothing_to_do(store.status_updates.rows, ids, today, store.status_updates.refused);
    lemma_roster_covered(store.attendance.rows, ids, today, store.attendance.refused);
}

/// Where every member of the roster but `missing` has a row for the day, a
/// pass that refuses nobody on the roster writes the row of `missing`, if
/// that is on the roster and lacks one, and nothing else.
pub proof fn lemma_fills_the_gap<R: DayRow>(
    rows: Seq<R>,
    ids: Seq<i32>,
    today: Date,
    refused: Set<i32>,
    missing: i32,
)
    requires
        forall|i: int| 0 <= i < ids.len() ==> !refused.contains(#[trigger] ids[i]),
        forall|i: int|
            0 <= i < ids.len() && #[trigger] ids[i] != missing ==> holds(rows, ids[i], today),
    ensures
        seeded(rows, ids, today, refused) == if ids.contains(missing) {
            put_if_absent(rows, R::pending(missing, today))
        } else {
            rows
        },
    decreases ids.len(),
{
    if ids.len() > 0 {
        let front = ids.drop_last();
        let before = seeded(rows, front, today, refused);
        assert forall|i: int| 0 <= i < front.len() implies !refused.contains(#[trigger] front[i])
            && (front[i] != missing ==> holds(rows, front[i], today)) by {
            assert(front[i] == ids[i]);
        }
        lemma_fills_the_gap::<R>(rows, front, today, refused, missing);
        R::lemma_pending(ids.last(), today);
        R::lemma_pending(missing, today);
        assert(ids.last() == ids[ids.len() - 1]);
        if ids.last() == missing {
            if front.contains(missing) {
                let row = R::pending(missing, today);
                if !holds(rows, missing, today) {
                    assert(before[rows.len() as int] == row);
                }
            }
        } else {
            lemma_held_stays_held(rows, front, today, refused, ids.last(), today);
            if front.contains(missing) {
                let k = choose|k: int| 0 <= k < front.len() && front[k] == missing;
                assert(ids[k] == missing);
            }
        }
        if ids.contains(missing) && ids.last() != missing {
            let k = choose|k: int| 0 <= k < ids.len() && ids[k] == missing;
            assert(front[k] == missing);
        }
    }
}

/// If the writes of exactly one member of the roster are refused, every
/// other member has a row for the day after the pass. A later pass for the
/// same day that refuses nobody on the roster writes exactly the row that is
/// missing, or nothing where that member had a row all along, and no member
/// ends up with two rows for a day.
pub proof fn lemma_one_failure_is_made_up<R: DayRow>(
    rows: Seq<R>,
    ids: Seq<i32>,
    today: Date,
    failing: i32,
    refused: Set<i32>,
    later: Set<i32>,
)
    requires
        ids.contains(failing),
        forall|i: int| 0 <= i < ids.len() ==> (refused.contains(#[trigger] ids[i]) <==> ids[i] == failing),
        forall|i: int| 0 <= i < ids.len() ==> !later.contains(#[trigger] ids[i]),
    ensures
        ({
            let first = seeded(rows, ids, today, refused);
            let second = seeded(first, ids, today, later);
            &&& forall|i: int|
                0 <= i < ids.len() && #[trigger] ids[i] != failing ==> holds(first, ids[i], today)
            &&& second == put_if_absent(first, R::pending(failing, today))
            &&& !holds(rows, failing, today) ==> second == first.push(R::pending(failing, today))
            &&& holds(rows, failing, today) ==> second == first
            &&& one_per_key(rows) ==> one_per_key(second)
        }),
{
    let first = seeded(rows, ids, today, refused);
    let second = seeded(first, ids, today, later);
    lemma_roster_covered(rows, ids, today, refused);
    lemma_fills_the_gap::<R>(first, ids, today, later, failing);
    R::lemma_pending(failing, today);
    if holds(rows, failing, today) {
        lemma_held_stays_held(rows, ids, today, refused, failing, today);
    } else {
        if holds(first, failing, today) {
            lemma_only_the_roster(rows, ids, today, refused, failing, today);
            let k = choose|k: int| 0 <= k < ids.len() && ids[k] == failing;
            assert(refused.contains(ids[k]));
        }
    }
    if one_per_key(rows) {
        lemma_one_row_per_key(rows, ids, today, refused);
        lemma_one_row_per_key(first, ids, today, later);
    }
}

/// How many members of `ids` have their writes taken.
pub open spec fn taken(ids: Seq<i32>, refused: Set<i32>) -> nat {
    ids.filter(|id: i32| !refused.contains(id)).len()
}

/// On a table that has no row for the day of anyone on the roster, a pass
/// over a roster that lists nobody twice writes one row for each member
/// whose writes are taken, and no other row.
pub proof fn lemma_rows_counted<R: DayRow>(
    rows: Seq<R>,
    ids: Seq<i32>,
    today: Date,
    refused: Set<i32>,
)
    requires
        ids.no_duplicates(),
        forall|i: int| 0 <= i < ids.len() ==> !holds(rows, #[trigger] ids[i], today),
    ensures
        seeded(rows, ids, today, refused).len() == rows.len() + taken(ids, refused),
    decreases ids.len(),
{
    reveal(Seq::filter);
    if ids.len() > 0 {
        let front = ids.drop_last();
        let last = ids.last();
        let before = seeded(rows, front, today, refused);
        assert forall|i: int| 0 <= i < front.len() implies !holds(rows, #[trigger] front[i], today) by {
            assert(front[i] == ids[i]);
        }
        lemma_rows_counted::<R>(rows, front, today, refused);
        R::lemma_pending(last, today);
        assert(last == ids[ids.len() - 1]);
        if !refused.contains(last) && holds(before, last, today) {
            lemma_only_the_roster(rows, front, today, refused, last, today);
            let k = choose|k: int| 0 <= k < front.len() && front[k] == last;
            assert(ids[k] == ids[ids.len() - 1]);
        }
    }
}

/// Where exactly one member of a roster that lists nobody twice has their
/// writes refused, the writes of all the others are taken.
pub proof fn lemma_all_but_one_taken(ids: Seq<i32>, refused: Set<i32>, failing: i32)
    requires
        ids.no_duplicates(),
        forall|i: int| 0 <= i < ids.len() ==> (refused.contains(#[trigger] ids[i]) <==> ids[i] == failing),
    ensures
        taken(ids, refused) == ids.len() - if ids.contains(failing) {
            1int
        } else {
            0int
        },
    decreases ids.len(),
{
    reveal(Seq::filter);
    if ids.len() > 0 {
        let front = ids.drop_last();
        assert forall|i: int| 0 <= i < front.len() implies (refused.contains(#[trigger] front[i])
            <==> front[i] == failing) by {
            assert(front[i] == ids[i]);
        }
        lemma_all_but_one_taken(front, refused, failing);
        assert(ids.last() == ids[ids.len() - 1]);
        if front.contains(failing) {
            let k = choose|k: int| 0 <= k < front.len() && front[k] == failing;
            assert(ids[k] == failing);
        }
        if ids.contains(failing) && ids.last() != failing {
            let k = choose|k: int| 0 <= k < ids.len() && ids[k] == failing;
            assert(front[k] == failing);
        }
    }
}

/// On a table without rows for the day, where one of `n` members has their
/// writes refused, the pass writes `n - 1` rows and a later pass that
/// refuses nobody writes one more.
pub proof fn lemma_one_failure_in_numbers<R: DayRow>(
    rows: Seq<R>,
    ids: Seq<i32>,
    today: Date,
    failing: i32,
    refused: Set<i32>,
    later: Set<i32>,
)
    requires
        ids.no_duplicates(),
        ids.contains(failing),
        forall|i: int| 0 <= i < ids.len() ==> !holds(rows, #[trigger] ids[i], today),
        forall|i: int| 0 <= i < ids.len() ==> (refused.contains(#[trigger] ids[i]) <==> ids[i] == failing),
        forall|i: int| 0 <= i < ids.len() ==> !later.contains(#[trigger] ids[i]),
    ensures
        seeded(rows, ids, today, refused).len() == rows.len() + ids.len() - 1,
        seeded(seeded(rows, ids, today, refused), ids, today, later).len() == rows.len()
            + ids.len(),
{
    lemma_rows_counted::<R>(rows, ids, today, refused);
    lemma_all_but_one_taken(ids, refused, failing);
    lemma_one_failure_is_made_up::<R>(rows, ids, today, failing, refused, later);
    let k = choose|k: int| 0 <= k < ids.len() && ids[k] == failing;
    assert(!holds(rows, ids[k], today));
}

/// What the scheduler does when the task returns does not depend on what
/// the task reports: a run that failed is followed by the same sleep as one
/// that went well.
pub proof fn lemma_task_report_is_ignored(
    state: CycleState,
    config: &TriggerConfig,
    now: Instant,
    one: bool,
    other: bool,
)
    ensures
        command_for(state, SchedulerEvent::TaskReturned { seeded: one }, config, now)
            == command_for(state, SchedulerEvent::TaskReturned { seeded: other }, config, now),
{
}

/// Each state waits for an event, and an event is out of turn exactly where
/// the state does not wait for it: the loop has no state to end in.
pub proof fn lemma_no_final_state(
    state: CycleState,
    event: SchedulerEvent,
    config: &TriggerConfig,
    now: Instant,
)
    ensures
        exists|awaited: SchedulerEvent| in_turn(state, awaited),
        !in_turn(state, event) ==> command_for(state, event, config, now) == Err::<
            crate::schedule::Command,
            ScheduleError,
        >(ScheduleError::OutOfTurn),
{
    match state {
        CycleState::Sleeping => {
            assert(in_turn(state, SchedulerEvent::SleepElapsed));
        },
        CycleState::Running => {
            assert(in_turn(state, SchedulerEvent::TaskReturned { seeded: true }));
        },
    }
}

/// The sleep is never negative, never ends after the trigger, and ends less
/// than a second before it.
pub proof fn lemma_sleep_fits(now: Instant, trigger: i64)
    ensures
        seconds_until(now, trigger) >= 0,
        seconds_until(now, trigger) <= u64::MAX,
        ({
            let nanos_left = (trigger - now.secs) * 1_000_000_000 - now.nanos;
            nanos_left >= 0 ==> nanos_left - 1_000_000_000 < seconds_until(now, trigger)
                * 1_000_000_000 <= nanos_left
        }),
{
    let nanos_left = (trigger - now.secs) * 1_000_000_000 - now.nanos;
    if nanos_left > 0 {
        let whole = nanos_left / 1_000_000_000;
        assert(whole * 1_000_000_000 <= nanos_left < (whole + 1) * 1_000_000_000 && whole >= 0)
            by (nonlinear_arith)
            requires
                whole == nanos_left / 1_000_000_000,
                nanos_left > 0,
        ;
        assert(whole <= trigger - now.secs) by (nonlinear_arith)
            requires
                whole * 1_000_000_000 <= nanos_left,
                nanos_left <= (trigger - now.secs) * 1_000_000_000,
        ;
    }
}

} // verus!
