use para_scheduler::assignment::Assignment;
use para_scheduler::assignment::QueuedAssignmentProvider;
use para_scheduler::entry::CoreOccupied;
use para_scheduler::entry::ParasEntry;
use para_scheduler::ids::CoreIndex;
use para_scheduler::ids::ParaId;
use para_scheduler::scheduler::Scheduler;

fn assignment(para: u32) -> Assignment {
    Assignment { para_id: ParaId(para), metadata: 0 }
}

#[test]
fn enqueue_then_promote_occupies_core() {
    // queue empty, core free: the freshly enqueued entry is promoted while
    // its deadline has not passed
    let mut s = Scheduler::new(1);
    let a = assignment(7);
    let e = s.enqueue(CoreIndex(0), a, 5);
    assert_eq!(e, ParasEntry { assignment: a, availability_timeouts: 0, ttl: 5 });
    assert_eq!(s.claim_queue[0].len(), 1);
    s.promote_if_possible(CoreIndex(0), 5);
    assert_eq!(
        s.availability_cores[0],
        CoreOccupied::Paras(ParasEntry { assignment: a, availability_timeouts: 0, ttl: 5 })
    );
    assert_eq!(s.claim_queue[0].len(), 0);
}

#[test]
fn promote_after_ttl_drops_entry() {
    // an entry whose deadline (5) has passed at promotion time (20) is
    // silently dropped: the core stays free and the queue drains
    let mut s = Scheduler::new(1);
    s.enqueue(CoreIndex(0), assignment(7), 5);
    s.promote_if_possible(CoreIndex(0), 20);
    assert_eq!(s.availability_cores[0], CoreOccupied::Free);
    assert_eq!(s.claim_queue[0].len(), 0);
}

#[test]
fn promote_skips_expired_entries_and_takes_first_live() {
    let mut s = Scheduler::new(1);
    let stale = assignment(7);
    let live = assignment(8);
    s.enqueue(CoreIndex(0), stale, 1);
    s.enqueue(CoreIndex(0), live, 9);
    s.promote_if_possible(CoreIndex(0), 5);
    assert_eq!(
        s.availability_cores[0],
        CoreOccupied::Paras(ParasEntry { assignment: live, availability_timeouts: 0, ttl: 9 })
    );
    assert_eq!(s.claim_queue[0].len(), 0);
}

#[test]
fn promote_on_occupied_core_changes_nothing() {
    let occupant = ParasEntry { assignment: assignment(3), availability_timeouts: 1, ttl: 9 };
    let mut s = Scheduler {
        claim_queue: vec![vec![ParasEntry { assignment: assignment(4), availability_timeouts: 0, ttl: 9 }]],
        availability_cores: vec![CoreOccupied::Paras(occupant)],
    };
    s.promote_if_possible(CoreIndex(0), 5);
    assert_eq!(s.availability_cores[0], CoreOccupied::Paras(occupant));
    assert_eq!(s.claim_queue[0].len(), 1);
}

#[test]
fn timeout_requeues_at_front_with_incremented_counter() {
    // retried work takes priority over freshly enqueued work, and the
    // timeout counter never decreases
    let occupant = ParasEntry { assignment: assignment(3), availability_timeouts: 0, ttl: 6 };
    let fresh = ParasEntry { assignment: assignment(4), availability_timeouts: 0, ttl: 12 };
    let mut s = Scheduler {
        claim_queue: vec![vec![fresh]],
        availability_cores: vec![CoreOccupied::Paras(occupant)],
    };
    s.on_availability_timeout(CoreIndex(0), 10, 5, 3);
    assert_eq!(s.availability_cores[0], CoreOccupied::Free);
    assert_eq!(
        s.claim_queue[0],
        vec![
            ParasEntry { assignment: assignment(3), availability_timeouts: 1, ttl: 15 },
            fresh,
        ]
    );
}

#[test]
fn timeout_at_retry_limit_drops_entry() {
    let occupant = ParasEntry { assignment: assignment(3), availability_timeouts: 3, ttl: 6 };
    let mut s = Scheduler {
        claim_queue: vec![vec![]],
        availability_cores: vec![CoreOccupied::Paras(occupant)],
    };
    s.on_availability_timeout(CoreIndex(0), 10, 5, 3);
    assert_eq!(s.availability_cores[0], CoreOccupied::Free);
    assert_eq!(s.claim_queue[0].len(), 0);
}

#[test]
fn on_included_frees_core_regardless_of_timeouts() {
    let occupant = ParasEntry { assignment: assignment(3), availability_timeouts: 7, ttl: 6 };
    let mut s = Scheduler {
        claim_queue: vec![vec![]],
        availability_cores: vec![CoreOccupied::Paras(occupant)],
    };
    s.on_included(CoreIndex(0));
    assert_eq!(s.availability_cores[0], CoreOccupied::Free);
}

#[test]
fn fill_from_provider_enqueues_one_assignment_per_core() {
    let a1 = assignment(1);
    let a2 = assignment(2);
    let mut provider = QueuedAssignmentProvider { pending: vec![a1, a2] };
    let mut s = Scheduler::new(3);
    s.fill_from_provider(&mut provider, 5);
    assert_eq!(s.claim_queue[0], vec![ParasEntry { assignment: a1, availability_timeouts: 0, ttl: 5 }]);
    assert_eq!(s.claim_queue[1], vec![ParasEntry { assignment: a2, availability_timeouts: 0, ttl: 5 }]);
    assert_eq!(s.claim_queue[2].len(), 0);
    assert!(provider.pending.is_empty());
}

#[test]
fn claimqueue_len_totals_all_cores() {
    let mut s = Scheduler::new(3);
    assert_eq!(s.claimqueue_len(), 0);
    s.enqueue(CoreIndex(0), assignment(1), 5);
    s.enqueue(CoreIndex(2), assignment(2), 5);
    s.enqueue(CoreIndex(2), assignment(3), 5);
    assert_eq!(s.claimqueue_len(), 3);
}
