//! Assignment representations and the capability surface of the component
//! that produces them.

use vstd::prelude::*;
use crate::ids::CoreIndex;
use crate::ids::ParaId;

verus! {

/// Assignment as the first storage layout knew it: only the parachain.
#[derive(Clone, Copy, PartialEq, Eq, Structural, Debug)]
pub struct V0Assignment {
    pub para_id: ParaId,
}

impl V0Assignment {
    /// Wrap a `ParaId` in the old assignment representation.
    pub fn new(para_id: ParaId) -> (a: V0Assignment)
        ensures
            a == (V0Assignment { para_id }),
    {
        V0Assignment { para_id }
    }

    /// The parachain this assignment schedules.
    pub fn para_id(&self) -> (p: ParaId)
        ensures
            p == self.para_id,
    {
        self.para_id
    }
}

/// Current assignment representation: a workload identifier together with
/// provider-specific metadata. The scheduler stores, requeues and forwards
/// assignments; it never branches on their contents.
#[derive(Clone, Copy, PartialEq, Eq, Structural, Debug)]
pub struct Assignment {
    pub para_id: ParaId,
    pub metadata: u64,
}

/// Capability surface of the assignment provider, consumed by the scheduler
/// and by the assignment-format migration. A provider yields zero-or-one
/// assignment per core per round, can translate an assignment from the old
/// encoding to the current one, and declares the version of the encoding it
/// writes.
pub trait AssignmentProvider: Sized {
    /// The translation `migrate_old_to_current` performs, as a function.
    spec fn migrated(old: V0Assignment, core: CoreIndex) -> Assignment;

    /// The version of the assignment encoding this provider writes.
    spec fn assignment_storage_version() -> u32;

    /// Translate an assignment from the old encoding to the current one.
    fn migrate_old_to_current(old: V0Assignment, core: CoreIndex) -> (a: Assignment)
        ensures
            a == Self::migrated(old, core),
    ;

    /// The version of the assignment encoding this provider writes.
    fn assignment_version() -> (v: u32)
        ensures
            v == Self::assignment_storage_version(),
    ;

    /// Next workload for `core`, if any. `None` means no work is scheduled
    /// for that core this round; it is not an error.
    fn pop_assignment(&mut self, core: CoreIndex) -> Option<Assignment>;
}

/// A reference provider: it hands out pre-loaded assignments in order, and
/// it re-encodes a legacy assignment by carrying the para over and
/// recording in the metadata which core the entry was stored under.
pub struct QueuedAssignmentProvider {
    /// Assignments handed out by `pop_assignment`, front first.
    pub pending: Vec<Assignment>,
}

impl AssignmentProvider for QueuedAssignmentProvider {
    open spec fn migrated(old: V0Assignment, core: CoreIndex) -> Assignment {
        Assignment { para_id: old.para_id, metadata: core.0 as u64 }
    }

    open spec fn assignment_storage_version() -> u32 {
        1
    }

    fn migrate_old_to_current(old: V0Assignment, core: CoreIndex) -> Assignment {
        Assignment { para_id: old.para_id, metadata: core.0 as u64 }
    }

    fn assignment_version() -> u32 {
        1
    }

    fn pop_assignment(&mut self, _core: CoreIndex) -> Option<Assignment> {
        if self.pending.len() == 0 {
            None
        } else {
            Some(self.pending.remove(0))
        }
    }
}

} // verus!
