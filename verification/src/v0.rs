//! Data model of the legacy persisted layout: a flat scheduled list and a
//! heterogeneous occupancy registry, before per-core claim queues existed.

use vstd::prelude::*;
use crate::ids::CollatorId;
use crate::ids::CoreIndex;
use crate::ids::GroupIndex;
use crate::ids::ParaId;

verus! {

/// A pending parathread claim: the parathread and the collator backing it.
#[derive(Clone, Copy, PartialEq, Eq, Structural, Debug)]
pub struct ParathreadClaim(pub ParaId, pub CollatorId);

/// A parathread claim with the number of times it has been retried.
#[derive(Clone, Copy, PartialEq, Eq, Structural, Debug)]
pub struct ParathreadEntry {
    /// The claim.
    pub claim: ParathreadClaim,
    /// Number of retries.
    pub retries: u32,
}

/// What is occupying a specific availability core in the legacy layout.
#[derive(Clone, Copy, PartialEq, Eq, Structural, Debug)]
pub enum CoreOccupied {
    /// A parathread.
    Parathread(ParathreadEntry),
    /// A parachain.
    Parachain,
}

/// The kind of a scheduled assignment.
#[derive(Clone, Copy, PartialEq, Eq, Structural, Debug)]
pub enum AssignmentKind {
    /// A parachain.
    Parachain,
    /// A parathread, with the backing collator and a retry count.
    Parathread(CollatorId, u32),
}

/// How a free core was scheduled to be assigned in the legacy layout.
#[derive(Clone, Copy, PartialEq, Eq, Structural, Debug)]
pub struct CoreAssignment {
    /// The core that is assigned.
    pub core: CoreIndex,
    /// The unique ID of the para that is assigned to the core.
    pub para_id: ParaId,
    /// The kind of the assignment.
    pub kind: AssignmentKind,
    /// The index of the validator group assigned to the core.
    pub group_idx: GroupIndex,
}

} // verus!
