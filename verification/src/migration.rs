//! The versioned migration pipeline over the persisted scheduler state:
//! one-shot, guarded, self-checking transforms for each schema edge, plus
//! the orthogonal assignment-format migration.

use vstd::prelude::*;
use vstd::pervasive::unreached;
use crate::assignment::Assignment;
use crate::assignment::AssignmentProvider;
use crate::assignment::V0Assignment;
use crate::codec::scale_decode_u32;
use crate::codec::scale_encode_u32;
use crate::codec::u32_be_bytes;
use crate::codec::u32_from_be;
use crate::codec::u32_from_le;
use crate::codec::u32_le_bytes;
use crate::codec::decode_count_be;
use crate::codec::encode_count_be;
use crate::entry::CoreOccupied;
use crate::entry::ParasEntry;
use crate::ids::CoreIndex;
use crate::ids::ParaId;
use crate::scheduler::flat_len;
use crate::v0;

verus! {

/// A hard failure of a migration's self-check: the upgrade must not be
/// finalized.
#[derive(Clone, Copy, PartialEq, Eq, Structural, Debug)]
pub enum MigrationError {
    /// The legacy scheduled list survived the first migration.
    ScheduledNotEmpty,
    /// The structural version marker is below the step's target.
    StorageVersionTooLow,
    /// The assignment-format marker does not match the provider's version.
    AssignmentVersionMismatch,
    /// The recorded checksum bytes are not a well-formed count.
    MalformedChecksum,
    /// The entry count of the new structure differs from the recorded one.
    CountMismatch,
}

/// The claim-queue storage item, tagged with the schema it is encoded in.
#[derive(Clone, PartialEq, Eq, Debug)]
pub enum ClaimQueueRepr {
    /// First claim-queue layout: entries wrapped in an `Option` marker.
    V1(Vec<Vec<Option<ParasEntry<V0Assignment>>>>),
    /// Second layout: the `Option` wrapper is gone.
    V2(Vec<Vec<ParasEntry<V0Assignment>>>),
    /// Second layout with entries re-encoded to the current assignment
    /// format.
    Current(Vec<Vec<ParasEntry<Assignment>>>),
}

/// The availability-core registry, tagged with the schema it is encoded in.
#[derive(Clone, PartialEq, Eq, Debug)]
pub enum AvailabilityCoresRepr {
    /// Legacy registry: optional, heterogeneous occupants.
    V0(Vec<Option<v0::CoreOccupied>>),
    /// Uniform `Free`/`Paras` registry.
    V1(Vec<CoreOccupied<V0Assignment>>),
}

/// The whole persisted surface the migration pipeline owns, together with
/// the two version markers gating its steps.
#[derive(Clone, PartialEq, Eq, Debug)]
pub struct MigrationState {
    /// Legacy flat list of scheduled core assignments; emptied by the first
    /// migration.
    pub scheduled: Vec<v0::CoreAssignment>,
    /// Whether the legacy parathread queue still exists in storage.
    pub parathread_queue: bool,
    /// Whether the legacy parathread claim index still exists in storage.
    pub parathread_claim_index: bool,
    /// The claim queue, in whichever schema has been migrated to.
    pub claim_queue: ClaimQueueRepr,
    /// The availability-core registry.
    pub availability_cores: AvailabilityCoresRepr,
    /// Structural schema version of the persisted state.
    pub storage_version: u32,
    /// Version of the assignment encoding inside the stored entries.
    pub assignment_version: u32,
}

/// Mathematical view of a family of per-core queues.
pub open spec fn nested_view<T>(q: Vec<Vec<T>>) -> Seq<Seq<T>> {
    q@.map_values(|inner: Vec<T>| inner@)
}

/// Mathematical view of the claim-queue storage item.
pub enum ClaimQueueView {
    V1(Seq<Seq<Option<ParasEntry<V0Assignment>>>>),
    V2(Seq<Seq<ParasEntry<V0Assignment>>>),
    Current(Seq<Seq<ParasEntry<Assignment>>>),
}

/// Mathematical view of the availability-core registry.
pub enum CoresView {
    V0(Seq<Option<v0::CoreOccupied>>),
    V1(Seq<CoreOccupied<V0Assignment>>),
}

/// Mathematical view of the whole persisted surface.
pub struct MigrationView {
    pub scheduled: Seq<v0::CoreAssignment>,
    pub parathread_queue: bool,
    pub parathread_claim_index: bool,
    pub claim_queue: ClaimQueueView,
    pub availability_cores: CoresView,
    pub storage_version: u32,
    pub assignment_version: u32,
}

impl View for ClaimQueueRepr {
    type V = ClaimQueueView;

    open spec fn view(&self) -> ClaimQueueView {
        match self {
            ClaimQueueRepr::V1(q) => ClaimQueueView::V1(nested_view(*q)),
            ClaimQueueRepr::V2(q) => ClaimQueueView::V2(nested_view(*q)),
            ClaimQueueRepr::Current(q) => ClaimQueueView::Current(nested_view(*q)),
        }
    }
}

impl View for AvailabilityCoresRepr {
    type V = CoresView;

    open spec fn view(&self) -> CoresView {
        match self {
            AvailabilityCoresRepr::V0(cs) => CoresView::V0(cs@),
            AvailabilityCoresRepr::V1(cs) => CoresView::V1(cs@),
        }
    }
}

impl View for MigrationState {
    type V = MigrationView;

    open spec fn view(&self) -> MigrationView {
        MigrationView {
            scheduled: self.scheduled@,
            parathread_queue: self.parathread_queue,
            parathread_claim_index: self.parathread_claim_index,
            claim_queue: self.claim_queue@,
            availability_cores: self.availability_cores@,
            storage_version: self.storage_version,
            assignment_version: self.assignment_version,
        }
    }
}

/// The entries of an optional-entry queue, in order, with the `None`
/// placeholders gone: filtering only removes placeholders, it never reorders
/// the entries that remain.
pub open spec fn stripped<T>(q: Seq<Option<T>>) -> Seq<T>
    decreases q.len(),
{
    if q.len() == 0 {
        Seq::empty()
    } else {
        match q.last() {
            Some(e) => stripped(q.drop_last()).push(e),
            None => stripped(q.drop_last()),
        }
    }
}

/// Every optional-entry queue, stripped of its placeholders.
pub open spec fn spec_strip_queues(qs: Seq<Seq<Option<ParasEntry<V0Assignment>>>>) -> Seq<
    Seq<ParasEntry<V0Assignment>>,
> {
    qs.map_values(|q: Seq<Option<ParasEntry<V0Assignment>>>| stripped(q))
}

/// Number of occupied slots in the legacy registry.
pub open spec fn v0_occupied_len(cs: Seq<Option<v0::CoreOccupied>>) -> nat
    decreases cs.len(),
{
    if cs.len() == 0 {
        0
    } else {
        v0_occupied_len(cs.drop_last()) + (if cs.last() is Some {
            1nat
        } else {
            0nat
        })
    }
}

/// Number of occupied cores in the uniform registry.
pub open spec fn occupied_len(cs: Seq<CoreOccupied<V0Assignment>>) -> nat
    decreases cs.len(),
{
    if cs.len() == 0 {
        0
    } else {
        occupied_len(cs.drop_last()) + (if cs.last() is Paras {
            1nat
        } else {
            0nat
        })
    }
}

impl ClaimQueueView {
    /// Total number of entries in the claim queue; placeholder markers do
    /// not count.
    pub open spec fn entry_count(self) -> nat {
        match self {
            ClaimQueueView::V1(q) => flat_len(spec_strip_queues(q)),
            ClaimQueueView::V2(q) => flat_len(q),
            ClaimQueueView::Current(q) => flat_len(q),
        }
    }
}

impl MigrationView {
    /// Number of cores in the registry that hold an occupant.
    pub open spec fn occupied_count(self) -> nat {
        match self.availability_cores {
            CoresView::V0(cs) => v0_occupied_len(cs),
            CoresView::V1(cs) => occupied_len(cs),
        }
    }
}

/// `n` clamped at the largest `usize`.
pub open spec fn clamp_usize(n: int) -> int {
    if n > usize::MAX as int {
        usize::MAX as int
    } else {
        n
    }
}

/// Number of entries (placeholders not counted) in one optional-entry queue.
fn count_somes(q: &Vec<Option<ParasEntry<V0Assignment>>>) -> (n: usize)
    ensures
        n == stripped(q@).len(),
{
    let mut n: usize = 0;
    let mut i: usize = 0;
    proof {
        lemma_stripped_len_le(q@);
    }
    while i < q.len()
        invariant
            i <= q@.len(),
            n == stripped(q@.take(i as int)).len(),
            n <= i,
        decreases q@.len() - i,
    {
        proof {
            assert(q@.take(i + 1 as int).drop_last() =~= q@.take(i as int));
            assert(q@.take(i + 1 as int).last() == q@[i as int]);
        }
        if q[i].is_some() {
            n = n + 1;
        }
        i += 1;
    }
    proof {
        assert(q@.take(q@.len() as int) =~= q@);
    }
    n
}

/// The guarded first migration, as a function of the state: runs only from
/// structural version 0, then records version 1; a no-op at any other
/// version.
pub open spec fn spec_migrate_to_v1_step(
    v: MigrationView,
    now: u64,
    parachains: Seq<ParaId>,
) -> MigrationView {
    if v.storage_version == 0 {
        let w = spec_migrate_to_v1(v, now, parachains);
        MigrationView {
            scheduled: w.scheduled,
            parathread_queue: w.parathread_queue,
            parathread_claim_index: w.parathread_claim_index,
            claim_queue: w.claim_queue,
            availability_cores: w.availability_cores,
            storage_version: 1u32,
            assignment_version: w.assignment_version,
        }
    } else {
        v
    }
}

/// The guarded second migration, as a function of the state: runs only at
/// structural version 1, then records version 2; a no-op otherwise.
pub open spec fn spec_migrate_to_v2_step(v: MigrationView) -> MigrationView {
    if v.storage_version == 1 {
        let w = spec_migrate_to_v2(v);
        MigrationView {
            scheduled: w.scheduled,
            parathread_queue: w.parathread_queue,
            parathread_claim_index: w.parathread_claim_index,
            claim_queue: w.claim_queue,
            availability_cores: w.availability_cores,
            storage_version: 2u32,
            assignment_version: w.assignment_version,
        }
    } else {
        v
    }
}

/// The guarded assignment-format migration, as a function of the state:
/// runs only while the marker is below the provider's version, then records
/// that version; a no-op otherwise.
pub open spec fn spec_migrate_assignment_step<P: AssignmentProvider>(
    v: MigrationView,
) -> MigrationView {
    if v.assignment_version < P::assignment_storage_version() {
        let w = spec_migrate_assignments::<P>(v);
        MigrationView {
            scheduled: w.scheduled,
            parathread_queue: w.parathread_queue,
            parathread_claim_index: w.parathread_claim_index,
            claim_queue: w.claim_queue,
            availability_cores: w.availability_cores,
            storage_version: w.storage_version,
            assignment_version: P::assignment_storage_version(),
        }
    } else {
        v
    }
}

/// The first structural migration, ungated: `MigrateToV1` adds the version
/// guard. Its dry-run check records the number of scheduled and waiting
/// workloads and, afterwards, demands that they all reached the claim queue
/// or the registry.
pub struct UncheckedMigrateToV1;

impl UncheckedMigrateToV1 {
    /// Run the first structural transform unconditionally.
    pub fn on_runtime_upgrade(s: &mut MigrationState, now: u64, parachains: &Vec<ParaId>)
        requires
            old(s).claim_queue is V1,
            old(s).availability_cores is V0,
            old(s).availability_cores@ matches CoresView::V0(cs) ==> forall|i: int|
                0 <= i < cs.len() && cs[i] == Some(v0::CoreOccupied::Parachain) ==> i
                    < parachains@.len(),
        ensures
            final(s)@ == spec_migrate_to_v1(old(s)@, now, parachains@),
    {
        migrate_to_v1(s, now, parachains);
    }

    /// Record the conserved scalar before the step: the number of scheduled
    /// workloads plus the number of occupied cores, SCALE-encoded.
    pub fn pre_upgrade(s: &MigrationState) -> (r: Vec<u8>)
        requires
            s@.scheduled.len() + s@.occupied_count() <= u32::MAX,
        ensures
            r@ == u32_le_bytes((s@.scheduled.len() + s@.occupied_count()) as u32),
    {
        let occupied = count_occupied(&s.availability_cores);
        let n = s.scheduled.len() + occupied;
        scale_encode_u32(n as u32)
    }

    /// Check the conserved scalar after the step ran: the scheduled list
    /// must be empty, and the claim queue plus the still-waiting cores must
    /// account for every workload recorded in `state`.
    pub fn post_upgrade(s: &MigrationState, state: Vec<u8>) -> (r: Result<(), MigrationError>)
        ensures
            s@.scheduled.len() != 0 ==> r == Err::<(), MigrationError>(
                MigrationError::ScheduledNotEmpty,
            ),
            s@.scheduled.len() == 0 && state@.len() < 4 ==> r == Err::<(), MigrationError>(
                MigrationError::MalformedChecksum,
            ),
            s@.scheduled.len() == 0 && state@.len() >= 4 ==> r == (if clamp_usize(
                (s@.claim_queue.entry_count() + s@.occupied_count()) as int,
            ) == u32_from_le(state@) as int {
                Ok::<(), MigrationError>(())
            } else {
                Err::<(), MigrationError>(MigrationError::CountMismatch)
            }),
    {
        if s.scheduled.len() != 0 {
            return Err(MigrationError::ScheduledNotEmpty);
        }
        match scale_decode_u32(&state) {
            None => Err(MigrationError::MalformedChecksum),
            Some(expected) => {
                let in_queue = s.claimqueue_len();
                let waiting = count_occupied(&s.availability_cores);
                let total = if in_queue > usize::MAX - waiting {
                    usize::MAX
                } else {
                    in_queue + waiting
                };
                if total == expected as usize {
                    Ok(())
                } else {
                    Err(MigrationError::CountMismatch)
                }
            },
        }
    }
}

/// One-shot guarded wrapper around the first structural migration.
pub struct MigrateToV1;

impl MigrateToV1 {
    /// Run the first structural migration if, and only if, the structural
    /// version marker is still 0, and record version 1. Invoking it again
    /// afterwards mutates nothing.
    pub fn on_runtime_upgrade(s: &mut MigrationState, now: u64, parachains: &Vec<ParaId>)
        requires
            old(s)@.storage_version == 0 ==> old(s).claim_queue is V1,
            old(s)@.storage_version == 0 ==> old(s).availability_cores is V0,
            old(s)@.storage_version == 0 ==> (old(s).availability_cores@ matches CoresView::V0(cs)
                ==> forall|i: int|
                0 <= i < cs.len() && cs[i] == Some(v0::CoreOccupied::Parachain) ==> i
                    < parachains@.len()),
        ensures
            final(s)@ == spec_migrate_to_v1_step(old(s)@, now, parachains@),
    {
        if s.storage_version == 0 {
            migrate_to_v1(s, now, parachains);
            s.storage_version = 1;
        }
    }
}

/// One-shot guarded second structural migration, with its dry-run check.
pub struct MigrateToV2;

impl MigrateToV2 {
    /// Run the second structural migration if, and only if, the structural
    /// version marker is exactly 1, and record version 2. Invoking it again
    /// afterwards mutates nothing.
    pub fn on_runtime_upgrade(s: &mut MigrationState)
        requires
            old(s)@.storage_version == 1 ==> old(s).claim_queue is V1,
        ensures
            final(s)@ == spec_migrate_to_v2_step(old(s)@),
    {
        if s.storage_version == 1 {
            migrate_to_v2(s);
            s.storage_version = 2;
        }
    }

    /// Record the conserved scalar before the step: the entry count,
    /// big-endian. Placeholder markers do not count, so the scalar survives
    /// the step.
    pub fn pre_upgrade(s: &MigrationState) -> (r: Vec<u8>)
        requires
            s@.claim_queue.entry_count() <= u32::MAX,
        ensures
            r@ == u32_be_bytes(s@.claim_queue.entry_count() as u32),
    {
        let n = s.claimqueue_len();
        encode_count_be(n as u32)
    }

    /// Check version and conserved scalar after the step ran.
    pub fn post_upgrade(s: &MigrationState, state: Vec<u8>) -> (r: Result<(), MigrationError>)
        ensures
            s@.storage_version < 2 ==> r == Err::<(), MigrationError>(
                MigrationError::StorageVersionTooLow,
            ),
            s@.storage_version >= 2 && state@.len() != 4 ==> r == Err::<(), MigrationError>(
                MigrationError::MalformedChecksum,
            ),
            s@.storage_version >= 2 && state@.len() == 4 ==> r == (if clamp_usize(
                s@.claim_queue.entry_count() as int,
            ) == u32_from_be(state@) as int {
                Ok::<(), MigrationError>(())
            } else {
                Err::<(), MigrationError>(MigrationError::CountMismatch)
            }),
    {
        if s.storage_version < 2 {
            return Err(MigrationError::StorageVersionTooLow);
        }
        match decode_count_be(&state) {
            None => Err(MigrationError::MalformedChecksum),
            Some(expected) => {
                let n = s.claimqueue_len();
                if n == expected as usize {
                    Ok(())
                } else {
                    Err(MigrationError::CountMismatch)
                }
            },
        }
    }
}

/// One-shot guarded assignment-format migration, with its dry-run check.
/// It is keyed off the provider's own version constant, independently of
/// the structural version.
pub struct MigrateAssignment;

impl MigrateAssignment {
    /// Re-encode every stored assignment if, and only if, the assignment
    /// version marker is below the provider's version, and record the
    /// provider's version. Invoking it again afterwards mutates nothing.
    pub fn on_runtime_upgrade<P: AssignmentProvider>(s: &mut MigrationState)
        requires
            old(s)@.assignment_version < P::assignment_storage_version() ==> old(s).claim_queue
                is V2,
            old(s)@.assignment_version < P::assignment_storage_version() ==> (old(
                s,
            ).claim_queue@ matches ClaimQueueView::V2(q) ==> q.len() <= u32::MAX),
        ensures
            final(s)@ == spec_migrate_assignment_step::<P>(old(s)@),
    {
        let version = P::assignment_version();
        if s.assignment_version < version {
            migrate_assignments::<P>(s);
            s.assignment_version = version;
        }
    }

    /// Record the conserved scalar before the step: the entry count,
    /// big-endian. Re-encoding entries moves none of them, so the scalar
    /// survives the step.
    pub fn pre_upgrade(s: &MigrationState) -> (r: Vec<u8>)
        requires
            s@.claim_queue.entry_count() <= u32::MAX,
        ensures
            r@ == u32_be_bytes(s@.claim_queue.entry_count() as u32),
    {
        let n = s.claimqueue_len();
        encode_count_be(n as u32)
    }

    /// Check the marker and the conserved scalar after the step ran.
    pub fn post_upgrade<P: AssignmentProvider>(s: &MigrationState, state: Vec<u8>) -> (r: Result<
        (),
        MigrationError,
    >)
        ensures
            s@.assignment_version != P::assignment_storage_version() ==> r == Err::<
                (),
                MigrationError,
            >(MigrationError::AssignmentVersionMismatch),
            s@.assignment_version == P::assignment_storage_version() && state@.len() != 4 ==> r
                == Err::<(), MigrationError>(MigrationError::MalformedChecksum),
            s@.assignment_version == P::assignment_storage_version() && state@.len() == 4 ==> r == (
            if clamp_usize(s@.claim_queue.entry_count() as int) == u32_from_be(state@) as int {
                Ok::<(), MigrationError>(())
            } else {
                Err::<(), MigrationError>(MigrationError::CountMismatch)
            }),
    {
        let version = P::assignment_version();
        if s.assignment_version != version {
            return Err(MigrationError::AssignmentVersionMismatch);
        }
        match decode_count_be(&state) {
            None => Err(MigrationError::MalformedChecksum),
            Some(expected) => {
                let n = s.claimqueue_len();
                if n == expected as usize {
                    Ok(())
                } else {
                    Err(MigrationError::CountMismatch)
                }
            },
        }
    }
}

/// Stripping can only shrink a queue.
proof fn lemma_stripped_len_le<T>(q: Seq<Option<T>>)
    ensures
        stripped(q).len() <= q.len(),
    decreases q.len(),
{
    if q.len() > 0 {
        lemma_stripped_len_le(q.drop_last());
    }
}

/// One optional-entry queue with its placeholders dropped; order is kept.
fn strip_queue(q: &Vec<Option<ParasEntry<V0Assignment>>>) -> (r: Vec<ParasEntry<V0Assignment>>)
    ensures
        r@ == stripped(q@),
{
    let mut r: Vec<ParasEntry<V0Assignment>> = Vec::new();
    let mut i: usize = 0;
    while i < q.len()
        invariant
            i <= q@.len(),
            r@ == stripped(q@.take(i as int)),
        decreases q@.len() - i,
    {
        proof {
            assert(q@.take(i + 1 as int).drop_last() =~= q@.take(i as int));
            assert(q@.take(i + 1 as int).last() == q@[i as int]);
        }
        match q[i] {
            Some(e) => r.push(e),
            None => {},
        }
        i += 1;
    }
    proof {
        assert(q@.take(q@.len() as int) =~= q@);
    }
    r
}

/// `qs` grown with empty queues so that index `n - 1` exists.
pub open spec fn pad_to<T>(qs: Seq<Seq<T>>, n: int) -> Seq<Seq<T>> {
    if qs.len() >= n {
        qs
    } else {
        qs + Seq::new((n - qs.len()) as nat, |i: int| Seq::empty())
    }
}

/// Queue family `qs` with `pe` appended (wrapped in the layout's `Some`
/// marker) to queue `core`, growing the family with empty queues if `core`
/// is beyond its end.
pub open spec fn spec_add_to_claimqueue(
    qs: Seq<Seq<Option<ParasEntry<V0Assignment>>>>,
    core: int,
    pe: ParasEntry<V0Assignment>,
) -> Seq<Seq<Option<ParasEntry<V0Assignment>>>> {
    let padded = pad_to(qs, core + 1);
    padded.update(core, padded[core].push(Some(pe)))
}

/// The parachain registered for core `i`, where there is one.
pub open spec fn spec_para_for(parachains: Seq<ParaId>, i: int) -> ParaId {
    if 0 <= i < parachains.len() {
        parachains[i]
    } else {
        ParaId(0)
    }
}

/// The uniform core state replacing one legacy occupancy slot: an empty
/// slot becomes `Free`; an occupant becomes a time-boxed entry for its
/// para, with parathread retry counters discarded.
pub open spec fn spec_v1_core(c: Option<v0::CoreOccupied>, para: ParaId, now: u64) -> CoreOccupied<
    V0Assignment,
> {
    match c {
        None => CoreOccupied::Free,
        Some(v0::CoreOccupied::Parachain) => CoreOccupied::Paras(
            ParasEntry {
                assignment: V0Assignment { para_id: para },
                availability_timeouts: 0u32,
                ttl: now,
            },
        ),
        Some(v0::CoreOccupied::Parathread(entry)) => CoreOccupied::Paras(
            ParasEntry {
                assignment: V0Assignment { para_id: entry.claim.0 },
                availability_timeouts: 0u32,
                ttl: now,
            },
        ),
    }
}

/// Per-core queues after unrolling the legacy scheduled list, in order.
pub open spec fn spec_enqueue_scheduled(
    qs: Seq<Seq<Option<ParasEntry<V0Assignment>>>>,
    scheduled: Seq<v0::CoreAssignment>,
    now: u64,
) -> Seq<Seq<Option<ParasEntry<V0Assignment>>>>
    decreases scheduled.len(),
{
    if scheduled.len() == 0 {
        qs
    } else {
        spec_add_to_claimqueue(
            spec_enqueue_scheduled(qs, scheduled.drop_last(), now),
            scheduled.last().core.0 as int,
            ParasEntry {
                assignment: V0Assignment { para_id: scheduled.last().para_id },
                availability_timeouts: 0u32,
                ttl: now,
            },
        )
    }
}

/// Append an entry, wrapped in the layout's `Some` marker, to `core_idx`'s
/// queue, growing the queue family with empty queues as needed.
pub fn add_to_claimqueue(
    cq: &mut Vec<Vec<Option<ParasEntry<V0Assignment>>>>,
    core_idx: CoreIndex,
    pe: ParasEntry<V0Assignment>,
)
    ensures
        nested_view(*final(cq)) == spec_add_to_claimqueue(
            nested_view(*old(cq)),
            core_idx.0 as int,
            pe,
        ),
{
    let idx = core_idx.0 as usize;
    while cq.len() <= idx
        invariant
            cq@.len() >= old(cq)@.len(),
            old(cq)@.len() > idx ==> cq@.len() == old(cq)@.len(),
            cq@.len() <= idx + 1 || cq@.len() == old(cq)@.len(),
            forall|j: int| 0 <= j < old(cq)@.len() ==> cq@[j] == old(cq)@[j],
            forall|j: int|
                old(cq)@.len() <= j < cq@.len() ==> #[trigger] cq@[j]@ == Seq::<
                    Option<ParasEntry<V0Assignment>>,
                >::empty(),
        decreases idx + 1 - cq@.len(),
    {
        cq.push(Vec::new());
    }
    let q = &mut cq[idx];
    q.push(Some(pe));
    proof {
        assert(nested_view(*cq) =~~= spec_add_to_claimqueue(
            nested_view(*old(cq)),
            core_idx.0 as int,
            pe,
        ));
    }
}

/// The first structural transform, as a function of the state: defined
/// where the representations are the legacy ones, identity elsewhere.
pub open spec fn spec_migrate_to_v1(v: MigrationView, now: u64, parachains: Seq<ParaId>) -> MigrationView {
    match (v.claim_queue, v.availability_cores) {
        (ClaimQueueView::V1(q), CoresView::V0(cs)) => MigrationView {
            scheduled: Seq::empty(),
            parathread_queue: false,
            parathread_claim_index: false,
            claim_queue: ClaimQueueView::V1(spec_enqueue_scheduled(q, v.scheduled, now)),
            availability_cores: CoresView::V1(
                Seq::new(cs.len(), |i: int| spec_v1_core(cs[i], spec_para_for(parachains, i), now)),
            ),
            storage_version: v.storage_version,
            assignment_version: v.assignment_version,
        },
        _ => v,
    }
}

/// Convert the legacy layout to the first claim-queue layout: the two
/// legacy parathread structures are discarded outright; the flat scheduled
/// list is unrolled, in order, into per-core FIFO queues whose entries are
/// time-boxed from `now`; the heterogeneous occupancy registry becomes the
/// uniform `Free`/`Paras` registry, with parathread retry counters
/// discarded. `parachains` lists the registered parachain per core and is
/// consulted for cores occupied by a parachain.
pub fn migrate_to_v1(s: &mut MigrationState, now: u64, parachains: &Vec<ParaId>)
    requires
        old(s).claim_queue is V1,
        old(s).availability_cores is V0,
        old(s).availability_cores@ matches CoresView::V0(cs) ==> forall|i: int|
            0 <= i < cs.len() && cs[i] == Some(v0::CoreOccupied::Parachain) ==> i
                < parachains@.len(),
    ensures
        final(s)@ == spec_migrate_to_v1(old(s)@, now, parachains@),
{
    s.parathread_queue = false;
    s.parathread_claim_index = false;

    let mut q_owned: Vec<Vec<Option<ParasEntry<V0Assignment>>>> = Vec::new();
    match &mut s.claim_queue {
        ClaimQueueRepr::V1(q) => {
            core::mem::swap(q, &mut q_owned);
        },
        _ => {
            let _ = unreached::<()>();
        },
    }
    proof {
        assert(old(s).claim_queue@ == ClaimQueueView::V1(nested_view(q_owned)));
    }
    let ghost q0 = nested_view(q_owned);

    let n_sched = s.scheduled.len();
    let mut i: usize = 0;
    while i < n_sched
        invariant
            i <= n_sched,
            n_sched == s.scheduled@.len(),
            s.scheduled@ == old(s).scheduled@,
            nested_view(q_owned) == spec_enqueue_scheduled(
                q0,
                old(s).scheduled@.take(i as int),
                now,
            ),
        decreases n_sched - i,
    {
        let ca = s.scheduled[i];
        let pe = ParasEntry::new(V0Assignment::new(ca.para_id), now);
        add_to_claimqueue(&mut q_owned, ca.core, pe);
        proof {
            assert(old(s).scheduled@.take(i + 1 as int).drop_last() =~= old(s).scheduled@.take(
                i as int,
            ));
            assert(old(s).scheduled@.take(i + 1 as int).last() == old(s).scheduled@[i as int]);
        }
        i += 1;
    }
    proof {
        assert(old(s).scheduled@.take(n_sched as int) =~= old(s).scheduled@);
    }
    s.claim_queue = ClaimQueueRepr::V1(q_owned);
    s.scheduled = Vec::new();

    let mut cs_owned: Vec<Option<v0::CoreOccupied>> = Vec::new();
    match &mut s.availability_cores {
        AvailabilityCoresRepr::V0(cs) => {
            core::mem::swap(cs, &mut cs_owned);
        },
        _ => {
            let _ = unreached::<()>();
        },
    }
    proof {
        assert(old(s).availability_cores@ == CoresView::V0(cs_owned@));
    }
    let mut new_cores: Vec<CoreOccupied<V0Assignment>> = Vec::new();
    let mut k: usize = 0;
    while k < cs_owned.len()
        invariant
            k <= cs_owned@.len(),
            new_cores@.len() == k,
            old(s).availability_cores@ == CoresView::V0(cs_owned@),
            forall|j: int|
                0 <= j < cs_owned@.len() && cs_owned@[j] == Some(v0::CoreOccupied::Parachain) ==> j
                    < parachains@.len(),
            forall|j: int|
                0 <= j < k ==> new_cores@[j] == spec_v1_core(
                    cs_owned@[j],
                    spec_para_for(parachains@, j),
                    now,
                ),
        decreases cs_owned@.len() - k,
    {
        let c = cs_owned[k];
        let nc = match c {
            None => CoreOccupied::Free,
            Some(v0::CoreOccupied::Parachain) => CoreOccupied::Paras(
                ParasEntry::new(V0Assignment::new(parachains[k]), now),
            ),
            Some(v0::CoreOccupied::Parathread(entry)) => CoreOccupied::Paras(
                ParasEntry::new(V0Assignment::new(entry.claim.0), now),
            ),
        };
        new_cores.push(nc);
        k += 1;
    }
    s.availability_cores = AvailabilityCoresRepr::V1(new_cores);
    proof {
        let w = spec_migrate_to_v1(old(s)@, now, parachains@);
        assert(s@.scheduled =~= w.scheduled);
        assert(new_cores@ =~= Seq::new(
            cs_owned@.len(),
            |i: int| spec_v1_core(cs_owned@[i], spec_para_for(parachains@, i), now),
        ));
        assert(s@ == w);
    }
}

/// Spec-level re-encoding of one stored entry via the provider.
pub open spec fn spec_migrated_entry<P: AssignmentProvider>(
    core: int,
    e: ParasEntry<V0Assignment>,
) -> ParasEntry<Assignment> {
    ParasEntry {
        assignment: P::migrated(e.assignment, CoreIndex(core as u32)),
        availability_timeouts: e.availability_timeouts,
        ttl: e.ttl,
    }
}

/// Re-encode one stored entry to the provider's current assignment format;
/// the timeout counter and the deadline carry over untouched.
fn migrate_assignment_paras_entry<P: AssignmentProvider>(
    core: CoreIndex,
    old_entry: ParasEntry<V0Assignment>,
) -> (e: ParasEntry<Assignment>)
    ensures
        e == spec_migrated_entry::<P>(core.0 as int, old_entry),
{
    ParasEntry {
        assignment: P::migrate_old_to_current(old_entry.assignment, core),
        availability_timeouts: old_entry.availability_timeouts,
        ttl: old_entry.ttl,
    }
}

/// Spec-level re-encoding of the whole claim queue.
pub open spec fn spec_migrate_queues<P: AssignmentProvider>(
    qs: Seq<Seq<ParasEntry<V0Assignment>>>,
) -> Seq<Seq<ParasEntry<Assignment>>> {
    Seq::new(
        qs.len(),
        |c: int| qs[c].map_values(|e: ParasEntry<V0Assignment>| spec_migrated_entry::<P>(c, e)),
    )
}

/// The assignment-format transform, as a function of the state: defined
/// where the claim queue is in the second layout, identity elsewhere.
pub open spec fn spec_migrate_assignments<P: AssignmentProvider>(v: MigrationView) -> MigrationView {
    match v.claim_queue {
        ClaimQueueView::V2(q) => MigrationView {
            scheduled: v.scheduled,
            parathread_queue: v.parathread_queue,
            parathread_claim_index: v.parathread_claim_index,
            claim_queue: ClaimQueueView::Current(spec_migrate_queues::<P>(q)),
            availability_cores: v.availability_cores,
            storage_version: v.storage_version,
            assignment_version: v.assignment_version,
        },
        _ => v,
    }
}

/// Re-encode the assignment payload inside every stored entry via the
/// provider's translation, leaving the queue structure and the timeout and
/// deadline fields untouched.
pub fn migrate_assignments<P: AssignmentProvider>(s: &mut MigrationState)
    requires
        old(s).claim_queue is V2,
        old(s).claim_queue@ matches ClaimQueueView::V2(q) ==> q.len() <= u32::MAX,
    ensures
        final(s)@ == spec_migrate_assignments::<P>(old(s)@),
        final(s).claim_queue@ matches ClaimQueueView::Current(q_new) && old(
            s,
        ).claim_queue@ matches ClaimQueueView::V2(q_old) && q_new == spec_migrate_queues::<P>(q_old),
{
    let mut q_owned: Vec<Vec<ParasEntry<V0Assignment>>> = Vec::new();
    match &mut s.claim_queue {
        ClaimQueueRepr::V2(q) => {
            core::mem::swap(q, &mut q_owned);
        },
        _ => {
            let _ = unreached::<()>();
        },
    }
    proof {
        assert(old(s).claim_queue@ == ClaimQueueView::V2(nested_view(q_owned)));
    }
    let mut new_q: Vec<Vec<ParasEntry<Assignment>>> = Vec::new();
    let mut c: usize = 0;
    while c < q_owned.len()
        invariant
            c <= q_owned@.len(),
            q_owned@.len() <= u32::MAX,
            new_q@.len() == c,
            forall|k: int, j: int|
                0 <= k < c && 0 <= j < q_owned@[k]@.len() ==> #[trigger] new_q@[k]@[j]
                    == spec_migrated_entry::<P>(k, q_owned@[k]@[j]),
            forall|k: int| 0 <= k < c ==> #[trigger] new_q@[k]@.len() == q_owned@[k]@.len(),
        decreases q_owned@.len() - c,
    {
        let row = &q_owned[c];
        let mut new_row: Vec<ParasEntry<Assignment>> = Vec::new();
        let mut j: usize = 0;
        while j < row.len()
            invariant
                j <= row@.len(),
                new_row@.len() == j,
                row@ == q_owned@[c as int]@,
                c < q_owned@.len() <= u32::MAX,
                forall|jj: int|
                    0 <= jj < j ==> #[trigger] new_row@[jj] == spec_migrated_entry::<P>(
                        c as int,
                        row@[jj],
                    ),
            decreases row@.len() - j,
        {
            let e = migrate_assignment_paras_entry::<P>(CoreIndex(c as u32), row[j]);
            new_row.push(e);
            j += 1;
        }
        new_q.push(new_row);
        c += 1;
    }
    proof {
        assert(nested_view(new_q) =~~= spec_migrate_queues::<P>(nested_view(q_owned)));
    }
    s.claim_queue = ClaimQueueRepr::Current(new_q);
}

/// Sum of the inner lengths, clamped at `usize::MAX`.
fn sat_len_nested<T>(q: &Vec<Vec<T>>) -> (n: usize)
    ensures
        n as int == clamp_usize(flat_len(nested_view(*q)) as int),
{
    let mut n: usize = 0;
    let mut i: usize = 0;
    while i < q.len()
        invariant
            i <= q@.len(),
            n as int == clamp_usize(flat_len(nested_view(*q).take(i as int)) as int),
        decreases q@.len() - i,
    {
        let l = q[i].len();
        proof {
            assert(nested_view(*q).take(i + 1 as int).drop_last() =~= nested_view(*q).take(
                i as int,
            ));
            assert(nested_view(*q).take(i + 1 as int).last() == q@[i as int]@);
        }
        n = if n > usize::MAX - l {
            usize::MAX
        } else {
            n + l
        };
        i += 1;
    }
    proof {
        assert(nested_view(*q).take(q@.len() as int) =~= nested_view(*q));
    }
    n
}

impl MigrationState {
    /// Total number of entries in the claim queue, clamped at `usize::MAX`;
    /// placeholder markers in the first layout do not count. Used
    /// operationally and as the migrations' integrity checksum.
    pub fn claimqueue_len(&self) -> (n: usize)
        ensures
            n as int == clamp_usize(self@.claim_queue.entry_count() as int),
    {
        match &self.claim_queue {
            ClaimQueueRepr::V1(q) => {
                let mut n: usize = 0;
                let mut i: usize = 0;
                while i < q.len()
                    invariant
                        i <= q@.len(),
                        n as int == clamp_usize(
                            flat_len(spec_strip_queues(nested_view(*q).take(i as int))) as int,
                        ),
                    decreases q@.len() - i,
                {
                    let l = count_somes(&q[i]);
                    proof {
                        assert(spec_strip_queues(nested_view(*q).take(i + 1 as int)).drop_last()
                            =~= spec_strip_queues(nested_view(*q).take(i as int)));
                        assert(spec_strip_queues(nested_view(*q).take(i + 1 as int)).last()
                            == stripped(q@[i as int]@));
                    }
                    n = if n > usize::MAX - l {
                        usize::MAX
                    } else {
                        n + l
                    };
                    i += 1;
                }
                proof {
                    assert(nested_view(*q).take(q@.len() as int) =~= nested_view(*q));
                    assert(spec_strip_queues(nested_view(*q).take(q@.len() as int))
                        == spec_strip_queues(nested_view(*q)));
                }
                n
            },
            ClaimQueueRepr::V2(q) => sat_len_nested(q),
            ClaimQueueRepr::Current(q) => sat_len_nested(q),
        }
    }
}

/// Number of occupied slots in the registry, in either layout.
fn count_occupied(cores: &AvailabilityCoresRepr) -> (n: usize)
    ensures
        (cores@ matches CoresView::V0(cs) ==> n == v0_occupied_len(cs)),
        (cores@ matches CoresView::V1(cs) ==> n == occupied_len(cs)),
{
    match cores {
        AvailabilityCoresRepr::V0(cs) => {
            let mut n: usize = 0;
            let mut i: usize = 0;
            while i < cs.len()
                invariant
                    i <= cs@.len(),
                    n == v0_occupied_len(cs@.take(i as int)),
                    n <= i,
                decreases cs@.len() - i,
            {
                proof {
                    assert(cs@.take(i + 1 as int).drop_last() =~= cs@.take(i as int));
                    assert(cs@.take(i + 1 as int).last() == cs@[i as int]);
                }
                if cs[i].is_some() {
                    n = n + 1;
                }
                i += 1;
            }
            proof {
                assert(cs@.take(cs@.len() as int) =~= cs@);
            }
            n
        },
        AvailabilityCoresRepr::V1(cs) => {
            let mut n: usize = 0;
            let mut i: usize = 0;
            while i < cs.len()
                invariant
                    i <= cs@.len(),
                    n == occupied_len(cs@.take(i as int)),
                    n <= i,
                decreases cs@.len() - i,
            {
                proof {
                    assert(cs@.take(i + 1 as int).drop_last() =~= cs@.take(i as int));
                    assert(cs@.take(i + 1 as int).last() == cs@[i as int]);
                }
                let occupied = match cs[i] {
                    CoreOccupied::Paras(_) => true,
                    CoreOccupied::Free => false,
                };
                if occupied {
                    n = n + 1;
                }
                i += 1;
            }
            proof {
                assert(cs@.take(cs@.len() as int) =~= cs@);
            }
            n
        },
    }
}

/// The second structural transform, as a function of the state: defined
/// where the claim queue is in the first layout, identity elsewhere.
pub open spec fn spec_migrate_to_v2(v: MigrationView) -> MigrationView {
    match v.claim_queue {
        ClaimQueueView::V1(q) => MigrationView {
            scheduled: v.scheduled,
            parathread_queue: v.parathread_queue,
            parathread_claim_index: v.parathread_claim_index,
            claim_queue: ClaimQueueView::V2(spec_strip_queues(q)),
            availability_cores: v.availability_cores,
            storage_version: v.storage_version,
            assignment_version: v.assignment_version,
        },
        _ => v,
    }
}

/// Strip the legacy `Option` indirection around queue entries: emptiness is
/// represented by queue length alone from the second layout on. The relative
/// order of the remaining entries is preserved exactly.
pub fn migrate_to_v2(s: &mut MigrationState)
    requires
        old(s).claim_queue is V1,
    ensures
        final(s)@ == spec_migrate_to_v2(old(s)@),
        final(s).claim_queue@ matches ClaimQueueView::V2(q2) && old(s).claim_queue@ matches
            ClaimQueueView::V1(q1) && q2 == spec_strip_queues(q1),
{
    let mut old_q: Vec<Vec<Option<ParasEntry<V0Assignment>>>> = Vec::new();
    match &mut s.claim_queue {
        ClaimQueueRepr::V1(q) => {
            core::mem::swap(q, &mut old_q);
        },
        _ => {
            let _ = unreached::<()>();
        },
    }
    let mut new_q: Vec<Vec<ParasEntry<V0Assignment>>> = Vec::new();
    let mut i: usize = 0;
    while i < old_q.len()
        invariant
            i <= old_q@.len(),
            new_q@.len() == i,
            forall|j: int| 0 <= j < i ==> #[trigger] new_q@[j]@ == stripped(old_q@[j]@),
        decreases old_q@.len() - i,
    {
        let stripped_core = strip_queue(&old_q[i]);
        new_q.push(stripped_core);
        i += 1;
    }
    proof {
        assert(nested_view(new_q) =~~= spec_strip_queues(nested_view(old_q)));
    }
    s.claim_queue = ClaimQueueRepr::V2(new_q);
}

/// `flat_len` distributes over concatenation.
proof fn lemma_flat_len_concat<T>(a: Seq<Seq<T>>, b: Seq<Seq<T>>)
    ensures
        flat_len(a + b) == flat_len(a) + flat_len(b),
    decreases b.len(),
{
    if b.len() == 0 {
        assert(a + b =~= a);
    } else {
        assert((a + b).drop_last() =~= a + b.drop_last());
        lemma_flat_len_concat(a, b.drop_last());
    }
}

/// A family of empty queues holds nothing.
proof fn lemma_flat_len_empties<T>(qs: Seq<Seq<T>>)
    requires
        forall|i: int| 0 <= i < qs.len() ==> #[trigger] qs[i].len() == 0,
    ensures
        flat_len(qs) == 0,
    decreases qs.len(),
{
    if qs.len() > 0 {
        lemma_flat_len_empties(qs.drop_last());
    }
}

/// Replacing one queue changes the total by the difference in lengths.
proof fn lemma_flat_len_update<T>(qs: Seq<Seq<T>>, i: int, x: Seq<T>)
    requires
        0 <= i < qs.len(),
    ensures
        flat_len(qs.update(i, x)) + qs[i].len() == flat_len(qs) + x.len(),
    decreases qs.len(),
{
    if i == qs.len() - 1 {
        assert(qs.update(i, x).drop_last() =~= qs.drop_last());
    } else {
        assert(qs.update(i, x).drop_last() =~= qs.drop_last().update(i, x));
        lemma_flat_len_update(qs.drop_last(), i, x);
    }
}

/// Appending one marked entry raises the entry count by exactly one.
proof fn lemma_add_to_claimqueue_count(
    qs: Seq<Seq<Option<ParasEntry<V0Assignment>>>>,
    core: int,
    pe: ParasEntry<V0Assignment>,
)
    requires
        0 <= core,
    ensures
        flat_len(spec_strip_queues(spec_add_to_claimqueue(qs, core, pe))) == flat_len(
            spec_strip_queues(qs),
        ) + 1,
{
    let padded = pad_to(qs, core + 1);
    if qs.len() < core + 1 {
        let empties = Seq::new((core + 1 - qs.len()) as nat, |i: int| Seq::<
            Option<ParasEntry<V0Assignment>>,
        >::empty());
        assert(spec_strip_queues(padded) =~= spec_strip_queues(qs) + spec_strip_queues(empties));
        lemma_flat_len_concat(spec_strip_queues(qs), spec_strip_queues(empties));
        assert forall|i: int|
            0 <= i < spec_strip_queues(empties).len() implies #[trigger] spec_strip_queues(
            empties,
        )[i].len() == 0 by {
            assert(empties[i] =~= Seq::<Option<ParasEntry<V0Assignment>>>::empty());
        }
        lemma_flat_len_empties(spec_strip_queues(empties));
    } else {
        assert(padded == qs);
    }
    assert(flat_len(spec_strip_queues(padded)) == flat_len(spec_strip_queues(qs)));
    let updated = padded.update(core, padded[core].push(Some(pe)));
    assert(spec_strip_queues(updated) =~= spec_strip_queues(padded).update(
        core,
        stripped(padded[core].push(Some(pe))),
    ));
    assert(stripped(padded[core].push(Some(pe))) == stripped(
        padded[core].push(Some(pe)).drop_last(),
    ).push(pe));
    assert(padded[core].push(Some(pe)).drop_last() =~= padded[core]);
    lemma_flat_len_update(
        spec_strip_queues(padded),
        core,
        stripped(padded[core].push(Some(pe))),
    );
}

/// Unrolling the scheduled list adds exactly one entry per scheduled
/// workload.
proof fn lemma_enqueue_scheduled_count(
    qs: Seq<Seq<Option<ParasEntry<V0Assignment>>>>,
    scheduled: Seq<v0::CoreAssignment>,
    now: u64,
)
    ensures
        flat_len(spec_strip_queues(spec_enqueue_scheduled(qs, scheduled, now))) == flat_len(
            spec_strip_queues(qs),
        ) + scheduled.len(),
    decreases scheduled.len(),
{
    if scheduled.len() > 0 {
        lemma_enqueue_scheduled_count(qs, scheduled.drop_last(), now);
        lemma_add_to_claimqueue_count(
            spec_enqueue_scheduled(qs, scheduled.drop_last(), now),
            scheduled.last().core.0 as int,
            ParasEntry {
                assignment: V0Assignment { para_id: scheduled.last().para_id },
                availability_timeouts: 0u32,
                ttl: now,
            },
        );
    }
}

/// Registries that agree on which slots hold an occupant hold equally many.
proof fn lemma_occupied_pointwise(
    a: Seq<Option<v0::CoreOccupied>>,
    b: Seq<CoreOccupied<V0Assignment>>,
)
    requires
        a.len() == b.len(),
        forall|i: int| 0 <= i < a.len() ==> (#[trigger] b[i] is Paras <==> a[i] is Some),
    ensures
        occupied_len(b) == v0_occupied_len(a),
    decreases a.len(),
{
    if a.len() > 0 {
        lemma_occupied_pointwise(a.drop_last(), b.drop_last());
    }
}

/// Count-conservation law of the first migration: every scheduled workload
/// ends up in the claim queue, every occupant stays (as an occupant) in the
/// registry, and nothing else appears, so the combined number of pending
/// and occupying workloads is conserved.
pub proof fn lemma_v1_count_conservation(v: MigrationView, now: u64, parachains: Seq<ParaId>)
    requires
        v.claim_queue is V1,
        v.availability_cores is V0,
    ensures
        ({
            let w = spec_migrate_to_v1(v, now, parachains);
            w.claim_queue.entry_count() == v.claim_queue.entry_count() + v.scheduled.len()
                && w.occupied_count() == v.occupied_count() && w.claim_queue.entry_count()
                + w.occupied_count() == v.claim_queue.entry_count() + v.scheduled.len()
                + v.occupied_count()
        }),
{
    let w = spec_migrate_to_v1(v, now, parachains);
    match (v.claim_queue, v.availability_cores) {
        (ClaimQueueView::V1(q), CoresView::V0(cs)) => {
            lemma_enqueue_scheduled_count(q, v.scheduled, now);
            let new_cores = Seq::new(
                cs.len(),
                |i: int| spec_v1_core(cs[i], spec_para_for(parachains, i), now),
            );
            lemma_occupied_pointwise(cs, new_cores);
        },
        _ => {},
    }
}

/// Indices of the non-empty markers of `q`, in ascending order.
pub open spec fn some_indices<T>(q: Seq<Option<T>>) -> Seq<int>
    decreases q.len(),
{
    if q.len() == 0 {
        Seq::empty()
    } else {
        match q.last() {
            Some(_) => some_indices(q.drop_last()).push(q.len() - 1),
            None => some_indices(q.drop_last()),
        }
    }
}

/// Order-preservation law of the second migration: stripping a queue keeps
/// exactly the entries that sat under `Some` markers, one per marker, in
/// the strictly ascending order of their original positions. Filtering only
/// removes placeholders; it never reorders.
pub proof fn lemma_stripped_preserves_order<T>(q: Seq<Option<T>>)
    ensures
        stripped(q).len() == some_indices(q).len(),
        forall|k: int|
            0 <= k < some_indices(q).len() ==> 0 <= #[trigger] some_indices(q)[k] < q.len(),
        forall|k: int|
            0 <= k < some_indices(q).len() ==> q[some_indices(q)[k]] == Some(
                #[trigger] stripped(q)[k],
            ),
        forall|k1: int, k2: int|
            0 <= k1 < k2 < some_indices(q).len() ==> #[trigger] some_indices(q)[k1]
                < #[trigger] some_indices(q)[k2],
    decreases q.len(),
{
    if q.len() > 0 {
        let rest = q.drop_last();
        lemma_stripped_preserves_order(rest);
        assert forall|k: int|
            0 <= k < some_indices(q).len() implies q[some_indices(q)[k]] == Some(
            #[trigger] stripped(q)[k],
        ) by {
            if k < some_indices(rest).len() {
                assert(some_indices(q)[k] == some_indices(rest)[k]);
                assert(q[some_indices(rest)[k]] == rest[some_indices(rest)[k]]);
            }
        }
    }
}

/// Queue families of the same shape hold equally many entries.
proof fn lemma_flat_len_same_shape<T, U>(a: Seq<Seq<T>>, b: Seq<Seq<U>>)
    requires
        a.len() == b.len(),
        forall|i: int| 0 <= i < a.len() ==> #[trigger] a[i].len() == b[i].len(),
    ensures
        flat_len(a) == flat_len(b),
    decreases a.len(),
{
    if a.len() > 0 {
        lemma_flat_len_same_shape(a.drop_last(), b.drop_last());
    }
}

/// The second migration conserves the entry count: placeholder markers were
/// never counted, so dropping them moves no workload.
pub proof fn lemma_v2_preserves_entry_count(v: MigrationView)
    requires
        v.claim_queue is V1,
    ensures
        spec_migrate_to_v2(v).claim_queue.entry_count() == v.claim_queue.entry_count(),
        spec_migrate_to_v2(v).availability_cores == v.availability_cores,
{
}

/// The assignment-format migration conserves the entry count: re-encoding
/// entries in place moves none of them.
pub proof fn lemma_assignments_preserve_entry_count<P: AssignmentProvider>(v: MigrationView)
    requires
        v.claim_queue is V2,
    ensures
        spec_migrate_assignments::<P>(v).claim_queue.entry_count() == v.claim_queue.entry_count(),
        spec_migrate_assignments::<P>(v).availability_cores == v.availability_cores,
{
    match v.claim_queue {
        ClaimQueueView::V2(q) => {
            lemma_flat_len_same_shape(spec_migrate_queues::<P>(q), q);
        },
        _ => {},
    }
}

/// Count conservation across the whole guarded pipeline: from a legacy
/// state, the three steps in order carry every scheduled workload into the
/// claim queue, keep every occupant in the registry, and lose or invent
/// nothing, whether or not the provider asks for an assignment re-encoding.
pub proof fn lemma_pipeline_count_conservation<P: AssignmentProvider>(
    v: MigrationView,
    now: u64,
    parachains: Seq<ParaId>,
)
    requires
        v.storage_version == 0,
        v.claim_queue is V1,
        v.availability_cores is V0,
    ensures
        ({
            let w = spec_migrate_assignment_step::<P>(
                spec_migrate_to_v2_step(spec_migrate_to_v1_step(v, now, parachains)),
            );
            w.claim_queue.entry_count() + w.occupied_count() == v.claim_queue.entry_count()
                + v.scheduled.len() + v.occupied_count()
        }),
{
    lemma_v1_count_conservation(v, now, parachains);
    let w1 = spec_migrate_to_v1_step(v, now, parachains);
    lemma_v2_preserves_entry_count(w1);
    let w2 = spec_migrate_to_v2_step(w1);
    if w2.assignment_version < P::assignment_storage_version() {
        lemma_assignments_preserve_entry_count::<P>(w2);
    }
}

/// Idempotence of version gating, first migration: once the step has run
/// and recorded version 1, invoking it again mutates nothing.
pub proof fn lemma_migrate_to_v1_step_idempotent(
    v: MigrationView,
    now: u64,
    parachains: Seq<ParaId>,
)
    ensures
        spec_migrate_to_v1_step(spec_migrate_to_v1_step(v, now, parachains), now, parachains)
            == spec_migrate_to_v1_step(v, now, parachains),
{
}

/// Idempotence of version gating, second migration: once the step has run
/// and recorded version 2, invoking it again mutates nothing.
pub proof fn lemma_migrate_to_v2_step_idempotent(v: MigrationView)
    ensures
        spec_migrate_to_v2_step(spec_migrate_to_v2_step(v)) == spec_migrate_to_v2_step(v),
{
}

/// Idempotence of version gating, assignment migration: once the step has
/// run and recorded the provider's version, invoking it again mutates
/// nothing.
pub proof fn lemma_migrate_assignment_step_idempotent<P: AssignmentProvider>(v: MigrationView)
    ensures
        spec_migrate_assignment_step::<P>(spec_migrate_assignment_step::<P>(v))
            == spec_migrate_assignment_step::<P>(v),
{
}

} // verus!
