use para_scheduler::assignment::Assignment;
use para_scheduler::assignment::AssignmentProvider;
use para_scheduler::assignment::QueuedAssignmentProvider;
use para_scheduler::assignment::V0Assignment;
use para_scheduler::entry::CoreOccupied;
use para_scheduler::entry::ParasEntry;
use para_scheduler::ids::CoreIndex;
use para_scheduler::ids::GroupIndex;
use para_scheduler::ids::ParaId;
use para_scheduler::migration::AvailabilityCoresRepr;
use para_scheduler::migration::ClaimQueueRepr;
use para_scheduler::migration::MigrateAssignment;
use para_scheduler::migration::MigrateToV1;
use para_scheduler::migration::MigrateToV2;
use para_scheduler::migration::MigrationError;
use para_scheduler::migration::MigrationState;
use para_scheduler::migration::UncheckedMigrateToV1;
use para_scheduler::v0;

fn v0_entry(para: u32, ttl: u64) -> ParasEntry<V0Assignment> {
    ParasEntry {
        assignment: V0Assignment { para_id: ParaId(para) },
        availability_timeouts: 0,
        ttl,
    }
}

fn v0_state(
    scheduled: Vec<v0::CoreAssignment>,
    cores: Vec<Option<v0::CoreOccupied>>,
) -> MigrationState {
    MigrationState {
        scheduled,
        parathread_queue: true,
        parathread_claim_index: true,
        claim_queue: ClaimQueueRepr::V1(Vec::new()),
        availability_cores: AvailabilityCoresRepr::V0(cores),
        storage_version: 0,
        assignment_version: 0,
    }
}

fn scheduled_parachain(core: u32, para: u32, group: u32) -> v0::CoreAssignment {
    v0::CoreAssignment {
        core: CoreIndex(core),
        para_id: ParaId(para),
        kind: v0::AssignmentKind::Parachain,
        group_idx: GroupIndex(group),
    }
}

#[test]
fn migrate_to_v1_converts_scheduled_and_cores() {
    // one scheduled parachain, one empty availability slot
    let mut st = v0_state(vec![scheduled_parachain(0, 7, 1)], vec![None]);
    MigrateToV1::on_runtime_upgrade(&mut st, 3, &vec![]);
    assert_eq!(st.storage_version, 1);
    assert!(st.scheduled.is_empty());
    assert!(!st.parathread_queue);
    assert!(!st.parathread_claim_index);
    match &st.claim_queue {
        ClaimQueueRepr::V1(q) => {
            assert_eq!(q.len(), 1);
            assert_eq!(q[0], vec![Some(v0_entry(7, 3))]);
        },
        _ => panic!("claim queue should be in the first layout"),
    }
    match &st.availability_cores {
        AvailabilityCoresRepr::V1(cs) => assert_eq!(*cs, vec![CoreOccupied::Free]),
        _ => panic!("registry should be in the uniform layout"),
    }
}

#[test]
fn migrate_to_v1_wraps_occupants() {
    let parathread = v0::CoreOccupied::Parathread(v0::ParathreadEntry {
        claim: v0::ParathreadClaim(ParaId(11), para_scheduler::ids::CollatorId(42)),
        retries: 5,
    });
    let mut st = v0_state(vec![], vec![Some(v0::CoreOccupied::Parachain), Some(parathread), None]);
    MigrateToV1::on_runtime_upgrade(&mut st, 9, &vec![ParaId(9)]);
    match &st.availability_cores {
        AvailabilityCoresRepr::V1(cs) => {
            // the parachain core takes the registered para of its index; the
            // parathread core takes the claimed para, its retry count discarded
            assert_eq!(
                *cs,
                vec![
                    CoreOccupied::Paras(v0_entry(9, 9)),
                    CoreOccupied::Paras(v0_entry(11, 9)),
                    CoreOccupied::Free,
                ]
            );
        },
        _ => panic!("registry should be in the uniform layout"),
    }
}

#[test]
fn migrate_to_v2_strips_placeholders_preserving_order() {
    let e1 = v0_entry(1, 10);
    let e2 = v0_entry(2, 20);
    let mut st = MigrationState {
        scheduled: vec![],
        parathread_queue: false,
        parathread_claim_index: false,
        claim_queue: ClaimQueueRepr::V1(vec![vec![], vec![], vec![Some(e1), None, Some(e2)]]),
        availability_cores: AvailabilityCoresRepr::V1(vec![]),
        storage_version: 1,
        assignment_version: 0,
    };
    MigrateToV2::on_runtime_upgrade(&mut st);
    assert_eq!(st.storage_version, 2);
    match &st.claim_queue {
        ClaimQueueRepr::V2(q) => {
            assert_eq!(*q, vec![vec![], vec![], vec![e1, e2]]);
        },
        _ => panic!("claim queue should be in the second layout"),
    }
}

#[test]
fn migration_steps_are_noops_once_versioned() {
    // first structural step
    let mut st = v0_state(vec![scheduled_parachain(0, 7, 1)], vec![None]);
    MigrateToV1::on_runtime_upgrade(&mut st, 3, &vec![]);
    let after_first = st.clone();
    MigrateToV1::on_runtime_upgrade(&mut st, 99, &vec![ParaId(5)]);
    assert_eq!(st, after_first);

    // second structural step
    MigrateToV2::on_runtime_upgrade(&mut st);
    let after_second = st.clone();
    MigrateToV2::on_runtime_upgrade(&mut st);
    assert_eq!(st, after_second);

    // assignment-format step
    MigrateAssignment::on_runtime_upgrade::<QueuedAssignmentProvider>(&mut st);
    let after_third = st.clone();
    MigrateAssignment::on_runtime_upgrade::<QueuedAssignmentProvider>(&mut st);
    assert_eq!(st, after_third);
}

#[test]
fn v1_pre_and_post_upgrade_agree() {
    // two scheduled workloads plus one occupant: the checksum is 3,
    // SCALE-encoded in little-endian bytes
    let mut st = v0_state(
        vec![scheduled_parachain(0, 7, 1), scheduled_parachain(1, 8, 2)],
        vec![Some(v0::CoreOccupied::Parachain), None],
    );
    let recorded = UncheckedMigrateToV1::pre_upgrade(&st);
    assert_eq!(recorded, vec![3, 0, 0, 0]);
    MigrateToV1::on_runtime_upgrade(&mut st, 5, &vec![ParaId(9), ParaId(10)]);
    assert_eq!(UncheckedMigrateToV1::post_upgrade(&st, recorded), Ok(()));
}

#[test]
fn v1_post_upgrade_rejects_wrong_count() {
    let mut st = v0_state(vec![scheduled_parachain(0, 7, 1)], vec![None]);
    MigrateToV1::on_runtime_upgrade(&mut st, 5, &vec![]);
    assert_eq!(
        UncheckedMigrateToV1::post_upgrade(&st, vec![9, 0, 0, 0]),
        Err(MigrationError::CountMismatch)
    );
}

#[test]
fn v1_post_upgrade_rejects_leftover_scheduled() {
    let st = v0_state(vec![scheduled_parachain(0, 7, 1)], vec![None]);
    assert_eq!(
        UncheckedMigrateToV1::post_upgrade(&st, vec![1, 0, 0, 0]),
        Err(MigrationError::ScheduledNotEmpty)
    );
}

#[test]
fn v1_post_upgrade_rejects_short_checksum() {
    let mut st = v0_state(vec![], vec![]);
    MigrateToV1::on_runtime_upgrade(&mut st, 5, &vec![]);
    assert_eq!(
        UncheckedMigrateToV1::post_upgrade(&st, vec![1, 2]),
        Err(MigrationError::MalformedChecksum)
    );
}

#[test]
fn v1_post_upgrade_ignores_trailing_checksum_bytes() {
    // the SCALE decoder reads the first four bytes and leaves the rest
    let mut st = v0_state(vec![scheduled_parachain(0, 7, 1)], vec![None]);
    MigrateToV1::on_runtime_upgrade(&mut st, 5, &vec![]);
    assert_eq!(UncheckedMigrateToV1::post_upgrade(&st, vec![1, 0, 0, 0, 99]), Ok(()));
}

#[test]
fn v2_pre_and_post_upgrade_agree() {
    // placeholders do not count, so the checksum (big-endian) survives the
    // step
    let mut st = MigrationState {
        scheduled: vec![],
        parathread_queue: false,
        parathread_claim_index: false,
        claim_queue: ClaimQueueRepr::V1(vec![vec![Some(v0_entry(1, 5)), None], vec![Some(
            v0_entry(2, 5),
        )]]),
        availability_cores: AvailabilityCoresRepr::V1(vec![]),
        storage_version: 1,
        assignment_version: 0,
    };
    assert_eq!(st.claimqueue_len(), 2);
    let recorded = MigrateToV2::pre_upgrade(&st);
    assert_eq!(recorded, vec![0, 0, 0, 2]);
    MigrateToV2::on_runtime_upgrade(&mut st);
    assert_eq!(MigrateToV2::post_upgrade(&st, recorded), Ok(()));
}

#[test]
fn v2_post_upgrade_rejects_low_version() {
    let st = MigrationState {
        scheduled: vec![],
        parathread_queue: false,
        parathread_claim_index: false,
        claim_queue: ClaimQueueRepr::V1(vec![]),
        availability_cores: AvailabilityCoresRepr::V1(vec![]),
        storage_version: 1,
        assignment_version: 0,
    };
    assert_eq!(
        MigrateToV2::post_upgrade(&st, vec![0, 0, 0, 0]),
        Err(MigrationError::StorageVersionTooLow)
    );
}

#[test]
fn v2_post_upgrade_rejects_malformed_checksum() {
    // the big-endian checksum must be exactly four bytes
    let st = MigrationState {
        scheduled: vec![],
        parathread_queue: false,
        parathread_claim_index: false,
        claim_queue: ClaimQueueRepr::V2(vec![]),
        availability_cores: AvailabilityCoresRepr::V1(vec![]),
        storage_version: 2,
        assignment_version: 0,
    };
    assert_eq!(
        MigrateToV2::post_upgrade(&st, vec![0, 0, 0, 0, 0]),
        Err(MigrationError::MalformedChecksum)
    );
}

#[test]
fn migrate_assignments_reencodes_entries_in_place() {
    let mut st = MigrationState {
        scheduled: vec![],
        parathread_queue: false,
        parathread_claim_index: false,
        claim_queue: ClaimQueueRepr::V2(vec![
            vec![ParasEntry {
                assignment: V0Assignment { para_id: ParaId(5) },
                availability_timeouts: 2,
                ttl: 7,
            }],
            vec![v0_entry(6, 9)],
        ]),
        availability_cores: AvailabilityCoresRepr::V1(vec![]),
        storage_version: 2,
        assignment_version: 0,
    };
    let recorded = MigrateAssignment::pre_upgrade(&st);
    assert_eq!(recorded, vec![0, 0, 0, 2]);
    MigrateAssignment::on_runtime_upgrade::<QueuedAssignmentProvider>(&mut st);
    assert_eq!(st.assignment_version, 1);
    match &st.claim_queue {
        ClaimQueueRepr::Current(q) => {
            // the para carries over; the provider records the core in the
            // metadata; counters and deadlines are untouched
            assert_eq!(
                *q,
                vec![
                    vec![ParasEntry {
                        assignment: Assignment { para_id: ParaId(5), metadata: 0 },
                        availability_timeouts: 2,
                        ttl: 7,
                    }],
                    vec![ParasEntry {
                        assignment: Assignment { para_id: ParaId(6), metadata: 1 },
                        availability_timeouts: 0,
                        ttl: 9,
                    }],
                ]
            );
        },
        _ => panic!("claim queue should be in the current layout"),
    }
    assert_eq!(
        MigrateAssignment::post_upgrade::<QueuedAssignmentProvider>(&st, recorded),
        Ok(())
    );
}

#[test]
fn assignment_post_upgrade_rejects_version_mismatch() {
    let st = MigrationState {
        scheduled: vec![],
        parathread_queue: false,
        parathread_claim_index: false,
        claim_queue: ClaimQueueRepr::V2(vec![]),
        availability_cores: AvailabilityCoresRepr::V1(vec![]),
        storage_version: 2,
        assignment_version: 0,
    };
    assert_eq!(
        MigrateAssignment::post_upgrade::<QueuedAssignmentProvider>(&st, vec![0, 0, 0, 0]),
        Err(MigrationError::AssignmentVersionMismatch)
    );
}

#[test]
fn provider_pops_assignments_in_order() {
    let a1 = Assignment { para_id: ParaId(1), metadata: 0 };
    let a2 = Assignment { para_id: ParaId(2), metadata: 0 };
    let mut provider = QueuedAssignmentProvider { pending: vec![a1, a2] };
    assert_eq!(provider.pop_assignment(CoreIndex(0)), Some(a1));
    assert_eq!(provider.pop_assignment(CoreIndex(0)), Some(a2));
    assert_eq!(provider.pop_assignment(CoreIndex(0)), None);
    assert_eq!(QueuedAssignmentProvider::assignment_version(), 1);
}
