//! Claim-queue entries and the per-core occupancy state.

use vstd::prelude::*;
use crate::assignment::V0Assignment;
use crate::ids::ParaId;

verus! {

/// A claim queued for, or occupying, an availability core.
#[derive(Clone, Copy, PartialEq, Eq, Structural, Debug)]
pub struct ParasEntry<A> {
    /// The underlying assignment.
    pub assignment: A,
    /// The number of times the entry has timed out in availability already.
    pub availability_timeouts: u32,
    /// The block height until this entry needs to be backed.
    ///
    /// If missed, the entry is removed from the claim queue without ever
    /// having occupied the core.
    pub ttl: u64,
}

impl<A> ParasEntry<A> {
    /// Create a new `ParasEntry`: no timeouts yet, deadline at `now`.
    pub fn new(assignment: A, now: u64) -> (e: ParasEntry<A>)
        ensures
            e == (ParasEntry { assignment, availability_timeouts: 0u32, ttl: now }),
    {
        ParasEntry { assignment, availability_timeouts: 0, ttl: now }
    }
}

impl ParasEntry<V0Assignment> {
    /// Return the `ParaId` of the underlying assignment.
    pub fn para_id(&self) -> (p: ParaId)
        ensures
            p == self.assignment.para_id,
    {
        self.assignment.para_id()
    }
}

/// What is occupying an availability core. The two states are mutually
/// exclusive and exhaustive: a core is either free or holds exactly one
/// entry waiting for availability.
#[derive(Clone, Copy, PartialEq, Eq, Structural, Debug)]
pub enum CoreOccupied<A> {
    /// The core is not occupied.
    Free,
    /// A para is waiting for availability on this core.
    Paras(ParasEntry<A>),
}

} // verus!
