//! The live scheduling core: per-core claim queues, the availability-core
//! registry, and the TTL-eviction / timeout-retry policy.

use vstd::prelude::*;
use crate::assignment::Assignment;
use crate::assignment::AssignmentProvider;
use crate::entry::CoreOccupied;
use crate::entry::ParasEntry;
use crate::ids::CoreIndex;

verus! {

/// Total number of entries across a family of per-core queues.
pub open spec fn flat_len<T>(qs: Seq<Seq<T>>) -> nat
    decreases qs.len(),
{
    if qs.len() == 0 {
        0
    } else {
        flat_len(qs.drop_last()) + qs.last().len()
    }
}

/// `a + b` clamped at the largest `u64`.
pub open spec fn sat_add_u64(a: u64, b: u64) -> u64 {
    if a + b > u64::MAX {
        u64::MAX
    } else {
        (a + b) as u64
    }
}

/// The leading entries of `q` whose deadline has passed at `now` are gone;
/// the remainder starts with the first entry that can still be backed, if
/// there is one.
pub open spec fn drop_expired(q: Seq<ParasEntry<Assignment>>, now: u64) -> Seq<
    ParasEntry<Assignment>,
>
    decreases q.len(),
{
    if q.len() == 0 {
        q
    } else if q[0].ttl < now {
        drop_expired(q.drop_first(), now)
    } else {
        q
    }
}

/// Mathematical state of the scheduler: one pending-entry sequence per core
/// (front of the queue first) and one occupancy slot per core.
pub struct SchedulerView {
    pub queues: Seq<Seq<ParasEntry<Assignment>>>,
    pub cores: Seq<CoreOccupied<Assignment>>,
}

impl SchedulerView {
    /// One queue and one occupancy slot for each physical core.
    pub open spec fn wf(self) -> bool {
        self.queues.len() == self.cores.len()
    }

    pub open spec fn num_cores(self) -> nat {
        self.cores.len()
    }

    /// State after appending a fresh entry for `assignment` to `core`'s queue.
    pub open spec fn after_enqueue(self, core: int, assignment: Assignment, now: u64) -> SchedulerView {
        SchedulerView {
            queues: self.queues.update(
                core,
                self.queues[core].push(
                    ParasEntry { assignment, availability_timeouts: 0u32, ttl: now },
                ),
            ),
            cores: self.cores,
        }
    }

    /// State after trying to promote the head of `core`'s queue into the
    /// core: nothing changes on an occupied core; on a free core, queued
    /// entries whose deadline has passed are dropped and the first live
    /// entry, if any, occupies the core.
    pub open spec fn after_promote(self, core: int, now: u64) -> SchedulerView {
        if !(self.cores[core] is Free) {
            self
        } else {
            let live = drop_expired(self.queues[core], now);
            if live.len() == 0 {
                SchedulerView { queues: self.queues.update(core, live), cores: self.cores }
            } else {
                SchedulerView {
                    queues: self.queues.update(core, live.drop_first()),
                    cores: self.cores.update(core, CoreOccupied::Paras(live[0])),
                }
            }
        }
    }

    /// State after an availability timeout on `core`: the occupant leaves the
    /// core; if the retry limit allows, it returns to the front of the queue
    /// with its timeout counter incremented and a fresh deadline, otherwise
    /// it is dropped.
    pub open spec fn after_availability_timeout(
        self,
        core: int,
        now: u64,
        ttl_window: u64,
        max_timeouts: u32,
    ) -> SchedulerView {
        match self.cores[core] {
            CoreOccupied::Free => self,
            CoreOccupied::Paras(e) => {
                let cores = self.cores.update(core, CoreOccupied::Free);
                if e.availability_timeouts < max_timeouts {
                    let retry = ParasEntry {
                        assignment: e.assignment,
                        availability_timeouts: (e.availability_timeouts + 1) as u32,
                        ttl: sat_add_u64(now, ttl_window),
                    };
                    SchedulerView {
                        queues: self.queues.update(core, seq![retry] + self.queues[core]),
                        cores,
                    }
                } else {
                    SchedulerView { queues: self.queues, cores }
                }
            },
        }
    }

    /// State after the occupant of `core` was included: the core is free and
    /// the entry is discarded.
    pub open spec fn after_included(self, core: int) -> SchedulerView {
        SchedulerView { queues: self.queues, cores: self.cores.update(core, CoreOccupied::Free) }
    }
}

/// The scheduling core: owns the claim queue and the availability-core
/// registry, and drives eviction and retry.
pub struct Scheduler {
    /// Per-core FIFO of pending entries: index = core, front = first.
    pub claim_queue: Vec<Vec<ParasEntry<Assignment>>>,
    /// One occupancy slot per physical core.
    pub availability_cores: Vec<CoreOccupied<Assignment>>,
}

impl View for Scheduler {
    type V = SchedulerView;

    open spec fn view(&self) -> SchedulerView {
        SchedulerView {
            queues: self.claim_queue@.map_values(|q: Vec<ParasEntry<Assignment>>| q@),
            cores: self.availability_cores@,
        }
    }
}

impl Scheduler {
    /// A scheduler for `n_cores` physical cores: every queue empty, every
    /// core free.
    pub fn new(n_cores: usize) -> (s: Scheduler)
        ensures
            s@.wf(),
            s@.num_cores() == n_cores,
            s@.queues == Seq::new(n_cores as nat, |i: int| Seq::<ParasEntry<Assignment>>::empty()),
            s@.cores == Seq::new(n_cores as nat, |i: int| CoreOccupied::<Assignment>::Free),
    {
        let mut claim_queue: Vec<Vec<ParasEntry<Assignment>>> = Vec::new();
        let mut availability_cores: Vec<CoreOccupied<Assignment>> = Vec::new();
        let mut i: usize = 0;
        while i < n_cores
            invariant
                i <= n_cores,
                claim_queue@.len() == i,
                availability_cores@.len() == i,
                forall|j: int|
                    0 <= j < i ==> #[trigger] claim_queue@[j]@ == Seq::<
                        ParasEntry<Assignment>,
                    >::empty(),
                forall|j: int|
                    0 <= j < i ==> availability_cores@[j] == CoreOccupied::<Assignment>::Free,
            decreases n_cores - i,
        {
            claim_queue.push(Vec::new());
            availability_cores.push(CoreOccupied::Free);
            i += 1;
        }
        let s = Scheduler { claim_queue, availability_cores };
        proof {
            assert(s@.queues =~= Seq::new(
                n_cores as nat,
                |i: int| Seq::<ParasEntry<Assignment>>::empty(),
            ));
            assert(s@.cores =~= Seq::new(n_cores as nat, |i: int| CoreOccupied::<Assignment>::Free));
        }
        s
    }

    /// Construct an entry `{assignment, 0 timeouts, ttl = now}` and append it
    /// to `core`'s queue. Always succeeds; the entry is returned.
    pub fn enqueue(&mut self, core: CoreIndex, assignment: Assignment, now: u64) -> (e: ParasEntry<
        Assignment,
    >)
        requires
            old(self)@.wf(),
            (core.0 as int) < old(self)@.num_cores(),
        ensures
            final(self)@.wf(),
            e == (ParasEntry { assignment, availability_timeouts: 0u32, ttl: now }),
            final(self)@ == old(self)@.after_enqueue(core.0 as int, assignment, now),
    {
        let entry = ParasEntry::new(assignment, now);
        let idx = core.0 as usize;
        let q = &mut self.claim_queue[idx];
        q.push(entry);
        proof {
            assert(self@.queues =~= old(self)@.after_enqueue(core.0 as int, assignment, now).queues);
        }
        entry
    }

    /// If `core` is free, drop queued entries whose deadline has passed and
    /// promote the first live entry, if any, into the core.
    pub fn promote_if_possible(&mut self, core: CoreIndex, now: u64)
        requires
            old(self)@.wf(),
            (core.0 as int) < old(self)@.num_cores(),
        ensures
            final(self)@.wf(),
            final(self)@ == old(self)@.after_promote(core.0 as int, now),
    {
        let idx = core.0 as usize;
        let is_free = match self.availability_cores[idx] {
            CoreOccupied::Free => true,
            CoreOccupied::Paras(_) => false,
        };
        if !is_free {
            return;
        }
        let next = pop_front_live(&mut self.claim_queue[idx], now);
        match next {
            Some(e) => {
                let r = &mut self.availability_cores[idx];
                *r = CoreOccupied::Paras(e);
            },
            None => {},
        }
        proof {
            let c = core.0 as int;
            let target = old(self)@.after_promote(c, now);
            assert(self@.queues =~~= target.queues);
            assert(self@.cores =~= target.cores);
        }
    }

    /// An occupant of `core` missed its availability deadline: free the core
    /// and, unless the occupant has already timed out `max_timeouts` times,
    /// put it back at the front of the queue with its counter incremented and
    /// a deadline `ttl_window` blocks from `now`. Retried work takes priority
    /// over freshly enqueued work.
    pub fn on_availability_timeout(
        &mut self,
        core: CoreIndex,
        now: u64,
        ttl_window: u64,
        max_timeouts: u32,
    )
        requires
            old(self)@.wf(),
            (core.0 as int) < old(self)@.num_cores(),
        ensures
            final(self)@.wf(),
            final(self)@ == old(self)@.after_availability_timeout(
                core.0 as int,
                now,
                ttl_window,
                max_timeouts,
            ),
    {
        let idx = core.0 as usize;
        let occupant = self.availability_cores[idx];
        match occupant {
            CoreOccupied::Free => {},
            CoreOccupied::Paras(e) => {
                {
                    let r = &mut self.availability_cores[idx];
                    *r = CoreOccupied::Free;
                }
                if e.availability_timeouts < max_timeouts {
                    let new_ttl = if ttl_window > u64::MAX - now {
                        u64::MAX
                    } else {
                        now + ttl_window
                    };
                    let retry = ParasEntry {
                        assignment: e.assignment,
                        availability_timeouts: e.availability_timeouts + 1,
                        ttl: new_ttl,
                    };
                    let q = &mut self.claim_queue[idx];
                    q.insert(0, retry);
                    proof {
                        assert(old(self)@.queues[idx as int].insert(0, retry) =~= seq![retry]
                            + old(self)@.queues[idx as int]);
                    }
                }
                proof {
                    let c = core.0 as int;
                    let target = old(self)@.after_availability_timeout(
                        c,
                        now,
                        ttl_window,
                        max_timeouts,
                    );
                    assert(self@.queues =~= target.queues);
                    assert(self@.cores =~= target.cores);
                }
            },
        }
    }

    /// The occupant of `core` was included: clear the core back to free.
    /// This succeeds regardless of how often the occupant had timed out.
    pub fn on_included(&mut self, core: CoreIndex)
        requires
            old(self)@.wf(),
            (core.0 as int) < old(self)@.num_cores(),
        ensures
            final(self)@.wf(),
            final(self)@ == old(self)@.after_included(core.0 as int),
    {
        let idx = core.0 as usize;
        let r = &mut self.availability_cores[idx];
        *r = CoreOccupied::Free;
        proof {
            assert(self@.queues =~= old(self)@.after_included(core.0 as int).queues);
        }
    }

    /// One round's intake: pull at most one assignment off the provider for
    /// every core and append it to that core's queue. What the provider
    /// yields is its own affair; whatever comes back, each queue either
    /// stays as it was or grows by exactly one fresh entry with deadline
    /// `now`, and the registry is untouched.
    pub fn fill_from_provider<P: AssignmentProvider>(&mut self, provider: &mut P, now: u64)
        requires
            old(self)@.wf(),
            old(self)@.num_cores() <= u32::MAX,
        ensures
            final(self)@.wf(),
            final(self)@.cores == old(self)@.cores,
            final(self)@.queues.len() == old(self)@.queues.len(),
            forall|c: int|
                0 <= c < old(self)@.queues.len() ==> (#[trigger] final(self)@.queues[c] == old(
                    self,
                )@.queues[c] || (exists|a: Assignment|
                    final(self)@.queues[c] == old(self)@.queues[c].push(
                        ParasEntry { assignment: a, availability_timeouts: 0u32, ttl: now },
                    ))),
    {
        let n = self.availability_cores.len();
        let mut c: usize = 0;
        while c < n
            invariant
                c <= n,
                n == old(self)@.num_cores() <= u32::MAX,
                self@.wf(),
                self@.cores == old(self)@.cores,
                self@.queues.len() == old(self)@.queues.len(),
                forall|cc: int| c <= cc < n ==> #[trigger] self@.queues[cc] == old(self)@.queues[cc],
                forall|cc: int|
                    0 <= cc < c ==> (#[trigger] self@.queues[cc] == old(self)@.queues[cc] || (
                    exists|a: Assignment|
                        self@.queues[cc] == old(self)@.queues[cc].push(
                            ParasEntry { assignment: a, availability_timeouts: 0u32, ttl: now },
                        ))),
            decreases n - c,
        {
            match provider.pop_assignment(CoreIndex(c as u32)) {
                Some(a) => {
                    self.enqueue(CoreIndex(c as u32), a, now);
                },
                None => {},
            }
            c += 1;
        }
    }

    /// Total number of pending entries across all cores, clamped at
    /// `usize::MAX`. Used operationally and as an integrity checksum.
    pub fn claimqueue_len(&self) -> (n: usize)
        ensures
            flat_len(self@.queues) <= usize::MAX ==> n == flat_len(self@.queues),
            flat_len(self@.queues) > usize::MAX ==> n == usize::MAX,
    {
        let mut n: usize = 0;
        let mut i: usize = 0;
        while i < self.claim_queue.len()
            invariant
                i <= self.claim_queue@.len(),
                flat_len(self@.queues.take(i as int)) <= usize::MAX ==> n == flat_len(
                    self@.queues.take(i as int),
                ),
                flat_len(self@.queues.take(i as int)) > usize::MAX ==> n == usize::MAX,
            decreases self.claim_queue@.len() - i,
        {
            let l = self.claim_queue[i].len();
            proof {
                assert(self@.queues.take(i + 1 as int).drop_last() =~= self@.queues.take(i as int));
                assert(self@.queues.take(i + 1 as int).last() == self@.queues[i as int]);
                assert(self@.queues[i as int].len() == l);
            }
            n = if n > usize::MAX - l {
                usize::MAX
            } else {
                n + l
            };
            i += 1;
        }
        proof {
            assert(self@.queues.take(self.claim_queue@.len() as int) =~= self@.queues);
        }
        n
    }
}

/// Remove entries from the front of `q` whose deadline has passed at `now`;
/// return the first entry that is still live, removed from the queue, or
/// `None` if the whole queue had expired.
fn pop_front_live(q: &mut Vec<ParasEntry<Assignment>>, now: u64) -> (r: Option<
    ParasEntry<Assignment>,
>)
    ensures
        (match r {
            None => drop_expired(old(q)@, now).len() == 0 && final(q)@.len() == 0,
            Some(e) => ({
                let live = drop_expired(old(q)@, now);
                live.len() > 0 && e == live[0] && final(q)@ == live.drop_first()
            }),
        }),
{
    loop
        invariant
            drop_expired(old(q)@, now) == drop_expired(q@, now),
        decreases q@.len(),
    {
        if q.len() == 0 {
            return None;
        }
        let ghost q_pre = q@;
        let e = q.remove(0);
        proof {
            assert(q@ =~= q_pre.drop_first());
        }
        if now <= e.ttl {
            proof {
                assert(drop_expired(q_pre, now) == q_pre);
            }
            return Some(e);
        }
    }
}

/// Entirely-expired queues drain to nothing.
proof fn lemma_drop_expired_all_expired(q: Seq<ParasEntry<Assignment>>, now: u64)
    requires
        forall|i: int| 0 <= i < q.len() ==> #[trigger] q[i].ttl < now,
    ensures
        drop_expired(q, now).len() == 0,
    decreases q.len(),
{
    if q.len() > 0 {
        lemma_drop_expired_all_expired(q.drop_first(), now);
    }
}

/// TTL-eviction law: an entry enqueued on a free core with deadline `t` is
/// removed by a later promotion round at `now > t` without ever occupying
/// the core, provided everything queued before it has also expired. The core
/// stays free and the queue drains.
pub proof fn lemma_ttl_eviction(
    v: SchedulerView,
    core: int,
    assignment: Assignment,
    t: u64,
    now: u64,
)
    requires
        v.wf(),
        0 <= core < v.num_cores(),
        v.cores[core] is Free,
        forall|i: int| 0 <= i < v.queues[core].len() ==> #[trigger] v.queues[core][i].ttl < now,
        t < now,
    ensures
        v.after_enqueue(core, assignment, t).after_promote(core, now).queues[core].len() == 0,
        v.after_enqueue(core, assignment, t).after_promote(core, now).cores[core] is Free,
{
    let v1 = v.after_enqueue(core, assignment, t);
    assert forall|i: int| 0 <= i < v1.queues[core].len() implies #[trigger] v1.queues[core][i].ttl
        < now by {
        if i < v.queues[core].len() {
            assert(v1.queues[core][i] == v.queues[core][i]);
        }
    }
    lemma_drop_expired_all_expired(v1.queues[core], now);
}

/// What survives the expiry sweep starts with a live entry.
proof fn lemma_drop_expired_head_live(q: Seq<ParasEntry<Assignment>>, now: u64)
    ensures
        drop_expired(q, now).len() > 0 ==> drop_expired(q, now)[0].ttl >= now,
    decreases q.len(),
{
    if q.len() > 0 && q[0].ttl < now {
        lemma_drop_expired_head_live(q.drop_first(), now);
    }
}

/// A promotion round never installs an expired entry: if a free core becomes
/// occupied, the occupant's deadline has not passed at `now`.
pub proof fn lemma_promote_head_live(v: SchedulerView, core: int, now: u64)
    requires
        v.wf(),
        0 <= core < v.num_cores(),
        v.cores[core] is Free,
        v.after_promote(core, now).cores[core] is Paras,
    ensures
        v.after_promote(core, now).cores[core]->Paras_0.ttl >= now,
{
    lemma_drop_expired_head_live(v.queues[core], now);
}

/// Retry-monotonicity law: across a timeout-retry cycle the timeout counter
/// of the surviving entry strictly grows, so it never decreases; the core is
/// freed either way, and a retried entry goes to the front of the queue with
/// the rest of the queue preserved.
pub proof fn lemma_retry_monotonic(
    v: SchedulerView,
    core: int,
    now: u64,
    ttl_window: u64,
    max_timeouts: u32,
)
    requires
        v.wf(),
        0 <= core < v.num_cores(),
        v.cores[core] is Paras,
    ensures
        ({
            let e = v.cores[core]->Paras_0;
            let w = v.after_availability_timeout(core, now, ttl_window, max_timeouts);
            w.cores[core] is Free && (e.availability_timeouts < max_timeouts ==> (
            w.queues[core].len() == v.queues[core].len() + 1 && w.queues[core][0].availability_timeouts
                == e.availability_timeouts + 1 && w.queues[core][0].availability_timeouts
                >= e.availability_timeouts && w.queues[core].drop_first() == v.queues[core]))
                && (e.availability_timeouts >= max_timeouts ==> w.queues == v.queues)
        }),
{
    let e = v.cores[core]->Paras_0;
    let w = v.after_availability_timeout(core, now, ttl_window, max_timeouts);
    if e.availability_timeouts < max_timeouts {
        assert(w.queues[core].drop_first() =~= v.queues[core]);
    }
}

/// Inclusion law: `on_included` always resets the core to free, regardless
/// of the occupant's prior timeout count, and leaves every queue unchanged.
pub proof fn lemma_included_always_frees(v: SchedulerView, core: int)
    requires
        v.wf(),
        0 <= core < v.num_cores(),
    ensures
        v.after_included(core).cores[core] is Free,
        v.after_included(core).queues == v.queues,
{
}

} // verus!
