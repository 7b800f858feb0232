use pool_operator::operator::{
    Operator, OperatorRequest, PoolRequestMessage, ProtocolFault, ShareAttempt, UpdateStep,
    settle_block,
};
use pool_operator::registry::BASE_SHARE_DIFFICULTY;
use pool_operator::template::{BlockTemplate, PeerAddr};

fn template(block_height: u32, coinbase_record: u64) -> BlockTemplate {
    BlockTemplate {
        block_height,
        previous_block_hash: 11,
        previous_ledger_root: 22,
        transactions_root: 33,
        header_root: 44,
        coinbase_record,
    }
}

fn peer() -> PeerAddr {
    // 1.2.3.4:9000
    PeerAddr { ip: 0x0102_0304, port: 9000 }
}

fn admitted(step: UpdateStep) -> ShareAttempt {
    match step {
        UpdateStep::VerifyShare(attempt) => attempt,
        other => panic!("expected an admitted share, got {:?}", other),
    }
}

#[test]
fn register_before_template_is_ignored() {
    let mut op = Operator::open();
    let step = op.update(OperatorRequest::PoolRegister(peer(), 7), 0);
    assert_eq!(step, UpdateStep::Ignored(ProtocolFault::NoBlockTemplate));
    // The registry is untouched.
    assert_eq!(op.provers.difficulty_of(7), None);
    assert!(op.provers.entries.is_empty());
}

#[test]
fn register_with_template_replies_at_base_difficulty() {
    let mut op = Operator::open();
    let t1 = template(100, 5);
    op.rotate(t1);
    let step = op.update(OperatorRequest::PoolRegister(peer(), 7), 0);
    assert_eq!(
        step,
        UpdateStep::Reply(PoolRequestMessage {
            peer: peer(),
            share_difficulty: u64::MAX / 5,
            template: t1,
        })
    );
    assert_eq!(op.provers.difficulty_of(7), Some(BASE_SHARE_DIFFICULTY));
}

#[test]
fn base_share_difficulty_value() {
    assert_eq!(BASE_SHARE_DIFFICULTY, u64::MAX / 5);
    assert_eq!(BASE_SHARE_DIFFICULTY, 3_689_348_814_741_910_323u64);
}

#[test]
fn response_before_template_is_ignored() {
    let mut op = Operator::open();
    let step = op.update(OperatorRequest::PoolResponse(peer(), 7, 42, 900), 0);
    assert_eq!(step, UpdateStep::Ignored(ProtocolFault::NoBlockTemplate));
}

#[test]
fn block_before_template_is_ignored() {
    let mut op = Operator::open();
    let step = op.update(OperatorRequest::PoolBlock(42, 900), 0);
    assert_eq!(step, UpdateStep::Ignored(ProtocolFault::NoBlockTemplate));
}

#[test]
fn duplicate_nonce_is_ignored() {
    let mut op = Operator::open();
    let t1 = template(100, 5);
    op.rotate(t1);
    let attempt = admitted(op.update(OperatorRequest::PoolResponse(peer(), 7, 42, 900), 1));
    let outcome = op.settle_share(&attempt, true, 2);
    assert_eq!(outcome.credited, Some(Ok(())));
    // The identical submission again: dropped as a duplicate, nothing credited.
    let step = op.update(OperatorRequest::PoolResponse(peer(), 7, 42, 900), 3);
    assert_eq!(step, UpdateStep::Ignored(ProtocolFault::DuplicateNonce));
    assert_eq!(op.get_shares_for_block(100, 5), vec![(7, 1)]);
}

#[test]
fn only_first_occurrence_of_each_nonce_is_credited() {
    let mut op = Operator::open();
    op.rotate(template(100, 5));
    let mut credited = 0u64;
    for nonce in [42, 42, 43, 42, 43] {
        match op.update(OperatorRequest::PoolResponse(peer(), 7, nonce, 900), 1) {
            UpdateStep::VerifyShare(attempt) => {
                let outcome = op.settle_share(&attempt, true, 2);
                assert_eq!(outcome.credited, Some(Ok(())));
                credited += 1;
            }
            UpdateStep::Ignored(fault) => assert_eq!(fault, ProtocolFault::DuplicateNonce),
            other => panic!("unexpected step {:?}", other),
        }
    }
    // Two distinct nonces were submitted, so exactly two shares stand.
    assert_eq!(credited, 2);
    assert_eq!(op.get_shares_for_block(100, 5), vec![(7, 2)]);
}

#[test]
fn admission_snapshots_verifier_inputs() {
    let mut op = Operator::open();
    let t1 = template(100, 5);
    op.rotate(t1);
    // The prover is unknown until this submission: judged at base difficulty.
    let attempt = admitted(op.update(OperatorRequest::PoolResponse(peer(), 7, 42, 900), 1));
    assert_eq!(attempt.share_difficulty, BASE_SHARE_DIFFICULTY);
    assert_eq!(attempt.template, t1);
    assert_eq!(attempt.nonce, 42);
    assert_eq!(attempt.proof_id, 900);
    assert_eq!(attempt.prover, 7);
    // The submission registered the prover.
    assert_eq!(op.provers.difficulty_of(7), Some(BASE_SHARE_DIFFICULTY));
}

#[test]
fn nonce_is_eligible_again_after_rotation() {
    let mut op = Operator::open();
    op.rotate(template(100, 5));
    let first = op.update(OperatorRequest::PoolResponse(peer(), 7, 42, 900), 1);
    assert!(matches!(first, UpdateStep::VerifyShare(_)));
    let t2 = template(101, 6);
    op.rotate(t2);
    // The same nonce is fresh under the new template.
    let again = admitted(op.update(OperatorRequest::PoolResponse(peer(), 7, 42, 901), 2));
    assert_eq!(again.template, t2);
}

#[test]
fn share_but_not_block() {
    let mut op = Operator::open();
    op.rotate(template(100, 5));
    let attempt = admitted(op.update(OperatorRequest::PoolResponse(peer(), 7, 42, 900), 1));
    let outcome = op.settle_share(&attempt, true, 2);
    assert_eq!(outcome.credited, Some(Ok(())));
    // The proof met only the share difficulty: assembly fails, nothing is sent.
    let assembly = outcome.assemble.expect("a valid share is a block candidate");
    assert_eq!(settle_block(&assembly, None), None);
    assert_eq!(op.get_shares_for_block(100, 5), vec![(7, 1)]);
}

#[test]
fn share_and_block() {
    let mut op = Operator::open();
    op.rotate(template(100, 5));
    let attempt = admitted(op.update(OperatorRequest::PoolResponse(peer(), 7, 42, 900), 1));
    let outcome = op.settle_share(&attempt, true, 2);
    assert_eq!(outcome.credited, Some(Ok(())));
    // The proof also met the network difficulty: assembly succeeded.
    let assembly = outcome.assemble.expect("a valid share is a block candidate");
    let msg = settle_block(&assembly, Some(777)).expect("an assembled block is submitted");
    assert_eq!(msg.block_height, 100);
    assert_eq!(msg.block_hash, 777);
}

#[test]
fn invalid_proof_changes_nothing() {
    let mut op = Operator::open();
    op.rotate(template(100, 5));
    let attempt = admitted(op.update(OperatorRequest::PoolResponse(peer(), 7, 42, 900), 1));
    let entries_before = op.provers.entries.clone();
    let outcome = op.settle_share(&attempt, false, 2);
    assert_eq!(outcome.credited, None);
    assert_eq!(outcome.assemble, None);
    assert!(op.get_shares_for_block(100, 5).is_empty());
    assert_eq!(op.provers.entries, entries_before);
}

#[test]
fn rotation_across_request_credits_the_old_round() {
    let mut op = Operator::open();
    op.rotate(template(100, 5));
    let attempt = admitted(op.update(OperatorRequest::PoolResponse(peer(), 7, 42, 900), 1));
    // The refresher rotates while the proof is being verified.
    op.rotate(template(101, 6));
    let outcome = op.settle_share(&attempt, true, 2);
    assert_eq!(outcome.credited, Some(Ok(())));
    // The share lands under the round it was proven against, not the new one.
    assert_eq!(op.get_shares_for_block(100, 5), vec![(7, 1)]);
    assert!(op.get_shares_for_block(101, 6).is_empty());
}

#[test]
fn pool_block_assembles_against_the_snapshot() {
    let mut op = Operator::open();
    let t1 = template(100, 5);
    op.rotate(t1);
    let step = op.update(OperatorRequest::PoolBlock(42, 900), 1);
    let assembly = match step {
        UpdateStep::AssembleBlock(a) => a,
        other => panic!("expected an assembly, got {:?}", other),
    };
    assert_eq!(assembly.template, t1);
    assert_eq!(assembly.nonce, 42);
    assert_eq!(assembly.proof_id, 900);
    // No share accounting on this path.
    assert!(op.get_shares_for_block(100, 5).is_empty());
    let msg = settle_block(&assembly, Some(888)).expect("an assembled block is submitted");
    assert_eq!(msg.block_height, 100);
}

#[test]
fn difficulty_stays_base_until_retargeted() {
    let mut op = Operator::open();
    op.rotate(template(100, 5));
    // First seen through registration.
    op.update(OperatorRequest::PoolRegister(peer(), 7), 0);
    // First seen through a submission.
    let attempt = admitted(op.update(OperatorRequest::PoolResponse(peer(), 8, 42, 900), 1));
    op.settle_share(&attempt, true, 2);
    // More traffic does not move either difficulty.
    op.update(OperatorRequest::PoolRegister(peer(), 7), 3);
    let again = admitted(op.update(OperatorRequest::PoolResponse(peer(), 8, 43, 901), 4));
    op.settle_share(&again, true, 5);
    assert_eq!(op.provers.difficulty_of(7), Some(BASE_SHARE_DIFFICULTY));
    assert_eq!(op.provers.difficulty_of(8), Some(BASE_SHARE_DIFFICULTY));
    // The retargeting hook is the one mutation that moves it.
    assert!(op.provers.set_difficulty(8, 1234));
    assert_eq!(op.provers.difficulty_of(8), Some(1234));
    assert_eq!(op.provers.difficulty_of(7), Some(BASE_SHARE_DIFFICULTY));
}

#[test]
fn refresher_is_idempotent_on_a_fresh_template() {
    let mut op = Operator::open();
    // With no template the cache is always stale.
    assert!(op.is_template_stale(100));
    let msg = op.rotate(template(101, 5));
    assert_eq!(msg.template, template(101, 5));
    // The template sits one above the tip: nothing to do this tick.
    assert!(!op.is_template_stale(100));
    // The tip moved: stale again.
    assert!(op.is_template_stale(101));
    assert!(op.is_template_stale(99));
}

#[test]
fn stale_check_saturates_at_the_largest_height() {
    let mut op = Operator::open();
    op.rotate(template(u32::MAX, 5));
    assert!(!op.is_template_stale(u32::MAX));
    assert!(!op.is_template_stale(u32::MAX - 1));
    assert!(op.is_template_stale(0));
}
