//! Plain identifier types shared by the scheduler and the migrations.

use vstd::prelude::*;

verus! {

/// Unique identifier of a parachain workload.
#[derive(Clone, Copy, PartialEq, Eq, Structural, Debug)]
pub struct ParaId(pub u32);

/// Index of a physical execution core.
#[derive(Clone, Copy, PartialEq, Eq, Structural, Debug)]
pub struct CoreIndex(pub u32);

/// Index of the validator group assigned to a core.
#[derive(Clone, Copy, PartialEq, Eq, Structural, Debug)]
pub struct GroupIndex(pub u32);

/// Identifier of a collator backing a parathread claim.
#[derive(Clone, Copy, PartialEq, Eq, Structural, Debug)]
pub struct CollatorId(pub u64);

} // verus!
