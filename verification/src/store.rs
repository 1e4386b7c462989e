//! The store that the daily task and the report work on, kept in memory:
//! the member directory and the two tables.

use crate::models::{AttendanceRecord, Member, StatusUpdateRecord};
use crate::table::{Table, TableState};
use vstd::prelude::*;

verus! {

/// The ids rise from each member to the next.
pub open spec fn ids_rise(members: Seq<Member>) -> bool {
    forall|i: int, j: int|
        0 <= i < j < members.len() ==> (#[trigger] members[i]).member_id < (
        #[trigger] members[j]).member_id
}

/// Whether `members` lists someone with this id.
pub open spec fn lists(members: Seq<Member>, member_id: i32) -> bool {
    exists|i: int| 0 <= i < members.len() && (#[trigger] members[i]).member_id == member_id
}

/// `after` is `before` with `member` entered at index `at`.
pub open spec fn entered_at(before: Seq<Member>, after: Seq<Member>, member: Member, at: int)
    -> bool {
    0 <= at <= before.len() && after == before.insert(at, member)
}

/// What a [`Directory`] holds.
pub struct DirectoryState {
    pub members: Seq<Member>,
    pub reachable: bool,
}

/// The member directory: the members by rising id. It can be made
/// unreachable, which stands for a directory that cannot be read.
pub struct Directory {
    members: Vec<Member>,
    reachable: bool,
}

impl View for Directory {
    type V = DirectoryState;

    closed spec fn view(&self) -> DirectoryState {
        DirectoryState { members: self.members@, reachable: self.reachable }
    }
}

/// The text with which an unreachable directory answers.
pub open spec fn unreachable_text() -> Seq<char> {
    "the member directory cannot be reached"@
}

impl Directory {
    /// What every directory meets: the ids rise from each member to the next.
    #[verifier::type_invariant]
    pub closed spec fn sorted(self) -> bool {
        ids_rise(self.members@)
    }

    /// An empty directory that can be reached.
    pub fn new() -> (directory: Directory)
        ensures
            directory@.members == Seq::<Member>::empty(),
            directory@.reachable,
    {
        Directory { members: Vec::new(), reachable: true }
    }

    /// Makes the directory reachable or not.
    pub fn set_reachable(&mut self, reachable: bool)
        ensures
            final(self)@.members == old(self)@.members,
            final(self)@.reachable == reachable,
    {
        proof {
            use_type_invariant(&*self);
        }
        self.reachable = reachable;
    }

    /// The members by rising id, whether or not the directory can be reached.
    pub fn members(&self) -> (members: &Vec<Member>)
        ensures
            members@ == self@.members,
            ids_rise(members@),
    {
        proof {
            use_type_invariant(self);
        }
        &self.members
    }

    /// Enters `member` at the place its id gives it. A directory that lists
    /// the id already stays as it is, and the answer is `false`.
    pub fn add(&mut self, member: Member) -> (added: bool)
        ensures
            final(self)@.reachable == old(self)@.reachable,
            added == !lists(old(self)@.members, member.member_id),
            !added ==> final(self)@.members == old(self)@.members,
            added ==> exists|at: int|
                entered_at(old(self)@.members, final(self)@.members, member, at),
            ids_rise(final(self)@.members),
    {
        let mut held = Directory::new();
        core::mem::swap(self, &mut held);
        proof {
            use_type_invariant(&held);
        }
        let Directory { mut members, reachable } = held;
        let ghost before = members@;
        let mut at: usize = 0;
        while at < members.len() && members[at].member_id < member.member_id
            invariant
                at <= members.len(),
                members@ == before,
                forall|k: int| 0 <= k < at ==> (#[trigger] before[k]).member_id < member.member_id,
            decreases members.len() - at,
        {
            at += 1;
        }
        if at < members.len() && members[at].member_id == member.member_id {
            *self = Directory { members, reachable };
            return false;
        }
        assert(!lists(before, member.member_id)) by {
            assert forall|k: int| 0 <= k < before.len() implies (#[trigger] before[k]).member_id
                != member.member_id by {
                if k >= at {
                    assert(before[at as int].member_id <= before[k].member_id);
                }
            }
        }
        members.insert(at, member);
        assert(ids_rise(members@)) by {
            assert forall|i: int, j: int| 0 <= i < j < members@.len() implies (
            #[trigger] members@[i]).member_id < (#[trigger] members@[j]).member_id by {
                let a = if i < at { i } else { i - 1 };
                let b = if j < at { j } else { j - 1 };
                if i != at && j != at {
                    assert(before[a].member_id < before[b].member_id);
                } else if i == at {
                    assert(before[at as int].member_id <= before[b].member_id);
                } else {
                    assert(before[a].member_id < member.member_id);
                }
            }
        }
        *self = Directory { members, reachable };
        assert(entered_at(old(self)@.members, self@.members, member, at as int));
        true
    }

    /// The whole roster, by rising id, or why it could not be read.
    pub fn fetch_all(&self) -> (roster: Result<Vec<Member>, String>)
        ensures
            self@.reachable ==> (roster matches Ok(members) && members@ == self@.members
                && ids_rise(members@)),
            !self@.reachable ==> (roster matches Err(cause) && cause@ == unreachable_text()),
    {
        proof {
            use_type_invariant(self);
        }
        if !self.reachable {
            return Err("the member directory cannot be reached".to_string());
        }
        let mut roster: Vec<Member> = Vec::new();
        let mut i: usize = 0;
        while i < self.members.len()
            invariant
                i <= self.members.len(),
                roster@ == self.members@.take(i as int),
            decreases self.members.len() - i,
        {
            roster.push(self.members[i].clone());
            assert(roster@ =~= self.members@.take(i + 1));
            i += 1;
        }
        assert(roster@ =~= self.members@);
        Ok(roster)
    }
}

/// What a [`MemoryStore`] holds.
pub struct StoreState {
    pub directory: DirectoryState,
    pub attendance: TableState<AttendanceRecord>,
    pub status_updates: TableState<StatusUpdateRecord>,
}

/// The member directory and the two tables.
pub struct MemoryStore {
    pub directory: Directory,
    pub attendance: Table<AttendanceRecord>,
    pub status_updates: Table<StatusUpdateRecord>,
}

impl View for MemoryStore {
    type V = StoreState;

    open spec fn view(&self) -> StoreState {
        StoreState {
            directory: self.directory@,
            attendance: self.attendance@,
            status_updates: self.status_updates@,
        }
    }
}

impl MemoryStore {
    /// A store without members and without rows, all of it reachable.
    pub fn new() -> (store: MemoryStore)
        ensures
            store@.directory.members == Seq::<Member>::empty(),
            store@.directory.reachable,
            store@.attendance.rows == Seq::<AttendanceRecord>::empty(),
            store@.attendance.refused == Set::<i32>::empty(),
            store@.status_updates.rows == Seq::<StatusUpdateRecord>::empty(),
            store@.status_updates.refused == Set::<i32>::empty(),
    {
        MemoryStore {
            directory: Directory::new(),
            attendance: Table::new(),
            status_updates: Table::new(),
        }
    }
}

} // verus!
