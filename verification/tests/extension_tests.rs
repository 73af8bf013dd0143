use para_scheduler::extension::BestParaHead;
use para_scheduler::extension::BestParaHeads;
use para_scheduler::ids::ParaId;

fn validate_submit_parachain_heads(
    heads: &BestParaHeads,
    num: u32,
    parachains: Vec<(ParaId, Vec<u8>)>,
) -> bool {
    heads.validate_submit_parachain_heads(num, &parachains)
}

fn sync_to_relay_header_10(heads: &mut BestParaHeads) {
    heads.insert(
        ParaId(1),
        BestParaHead {
            at_relay_block_number: 10,
            head_hash: vec![1u8; 32],
            next_imported_hash_position: 0,
        },
    );
}

#[test]
fn extension_rejects_header_from_the_obsolete_relay_block() {
    // when current best finalized is #10 and we're trying to import header#5 => tx is rejected
    let mut heads = BestParaHeads::new();
    sync_to_relay_header_10(&mut heads);
    assert!(!validate_submit_parachain_heads(&heads, 5, vec![(ParaId(1), vec![1u8; 32])]));
}

#[test]
fn extension_rejects_header_from_the_same_relay_block() {
    // when current best finalized is #10 and we're trying to import header#10 => tx is rejected
    let mut heads = BestParaHeads::new();
    sync_to_relay_header_10(&mut heads);
    assert!(!validate_submit_parachain_heads(&heads, 10, vec![(ParaId(1), vec![1u8; 32])]));
}

#[test]
fn extension_rejects_header_from_new_relay_block_with_same_hash() {
    // when the same head is submitted from a newer relay block => tx is rejected
    let mut heads = BestParaHeads::new();
    sync_to_relay_header_10(&mut heads);
    assert!(!validate_submit_parachain_heads(&heads, 20, vec![(ParaId(1), vec![1u8; 32])]));
}

#[test]
fn extension_accepts_new_header() {
    // when current best finalized is #10 and we're trying to import header#15 => tx is accepted
    let mut heads = BestParaHeads::new();
    sync_to_relay_header_10(&mut heads);
    assert!(validate_submit_parachain_heads(&heads, 15, vec![(ParaId(1), vec![2u8; 32])]));
}

#[test]
fn extension_accepts_if_more_than_one_parachain_is_submitted() {
    // when we're trying to import header#5, but another parachain head is also supplied => tx is
    // accepted
    let mut heads = BestParaHeads::new();
    sync_to_relay_header_10(&mut heads);
    assert!(validate_submit_parachain_heads(
        &heads,
        5,
        vec![(ParaId(1), vec![1u8; 32]), (ParaId(2), vec![1u8; 32])]
    ));
}

#[test]
fn extension_accepts_untracked_parachain() {
    let mut heads = BestParaHeads::new();
    sync_to_relay_header_10(&mut heads);
    assert!(validate_submit_parachain_heads(&heads, 5, vec![(ParaId(3), vec![1u8; 32])]));
}

#[test]
fn extension_uses_latest_inserted_head() {
    let mut heads = BestParaHeads::new();
    sync_to_relay_header_10(&mut heads);
    heads.insert(
        ParaId(1),
        BestParaHead {
            at_relay_block_number: 30,
            head_hash: vec![4u8; 32],
            next_imported_hash_position: 1,
        },
    );
    // accepted against the stale record, rejected against the latest one
    assert!(!validate_submit_parachain_heads(&heads, 15, vec![(ParaId(1), vec![2u8; 32])]));
    assert!(validate_submit_parachain_heads(&heads, 31, vec![(ParaId(1), vec![2u8; 32])]));
}
