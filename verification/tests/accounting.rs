use pool_operator::cache::TemplateCache;
use pool_operator::operator::{Operator, OperatorRequest, UpdateStep};
use pool_operator::registry::{BASE_SHARE_DIFFICULTY, ProverRegistry};
use pool_operator::shares::{RoundKey, ShareError, ShareLedger};
use pool_operator::template::{BlockTemplate, PeerAddr};

fn template(block_height: u32, coinbase_record: u64) -> BlockTemplate {
    BlockTemplate {
        block_height,
        previous_block_hash: 1,
        previous_ledger_root: 2,
        transactions_root: 3,
        header_root: 4,
        coinbase_record,
    }
}

#[test]
fn empty_ledger_answers_empty() {
    let op = Operator::open();
    assert!(op.get_shares_for_block(100, 5).is_empty());
    assert_eq!(op.get_shares_for_prover(7), 0);
    assert!(op.get_provers().is_empty());
    assert!(op.to_shares().is_empty());
}

#[test]
fn ledger_counts_per_round_and_per_prover() {
    let mut ledger = ShareLedger::new();
    // Round (100, 5): two shares for prover 7, one for prover 8.
    assert_eq!(ledger.increment_share(100, 5, 7), Ok(()));
    assert_eq!(ledger.increment_share(100, 5, 8), Ok(()));
    assert_eq!(ledger.increment_share(100, 5, 7), Ok(()));
    // Round (101, 6): one share for prover 7.
    assert_eq!(ledger.increment_share(101, 6, 7), Ok(()));
    assert_eq!(ledger.shares_for_block(100, 5), vec![(7, 2), (8, 1)]);
    assert_eq!(ledger.shares_for_block(101, 6), vec![(7, 1)]);
    assert!(ledger.shares_for_block(102, 6).is_empty());
    // Aggregated across rounds.
    assert_eq!(ledger.shares_for_prover(7), 3);
    assert_eq!(ledger.shares_for_prover(8), 1);
    assert_eq!(ledger.shares_for_prover(9), 0);
    // Each prover listed once.
    assert_eq!(ledger.provers(), vec![7, 8]);
    // The full dump, in insertion order.
    let all = ledger.all_shares();
    assert_eq!(
        all,
        vec![
            (RoundKey { block_height: 100, coinbase_record: 5 }, vec![(7, 2), (8, 1)]),
            (RoundKey { block_height: 101, coinbase_record: 6 }, vec![(7, 1)]),
        ]
    );
}

#[test]
fn credited_shares_match_the_processed_submissions() {
    let mut op = Operator::open();
    let peer = PeerAddr { ip: 0x0102_0304, port: 9000 };
    op.rotate(template(100, 5));
    // Prover 7 submits three distinct nonces, one of them with a bad proof;
    // prover 8 submits one nonce twice.
    let submissions: [(u64, u64, bool); 5] = [
        (7, 41, true),
        (7, 42, false),
        (8, 43, true),
        (8, 43, true),
        (7, 44, true),
    ];
    for (prover, nonce, valid) in submissions {
        if let UpdateStep::VerifyShare(attempt) =
            op.update(OperatorRequest::PoolResponse(peer, prover, nonce, 900), 1)
        {
            op.settle_share(&attempt, valid, 2);
        }
    }
    // Valid, non-duplicate submissions while (100, 5) was active: 7 twice, 8 once.
    assert_eq!(op.get_shares_for_block(100, 5), vec![(7, 2), (8, 1)]);
    assert_eq!(op.get_shares_for_prover(7), 2);
    assert_eq!(op.get_shares_for_prover(8), 1);
    assert_eq!(op.get_provers(), vec![7, 8]);
}

#[test]
fn a_saturated_counter_reports_the_failure() {
    // A round whose counter for prover 7 cannot grow any further.
    let mut ledger = ShareLedger {
        rounds: vec![(
            RoundKey { block_height: 100, coinbase_record: 5 },
            vec![(7, u64::MAX)],
        )],
    };
    assert_eq!(ledger.increment_share(100, 5, 7), Err(ShareError::CounterSaturated));
    // The failure leaves the ledger as it was, and other provers unaffected.
    assert_eq!(ledger.shares_for_block(100, 5), vec![(7, u64::MAX)]);
    assert_eq!(ledger.increment_share(100, 5, 8), Ok(()));
    assert_eq!(ledger.shares_for_block(100, 5), vec![(7, u64::MAX), (8, 1)]);
    // The aggregate across rounds saturates rather than wrapping.
    assert_eq!(ledger.increment_share(101, 6, 7), Ok(()));
    assert_eq!(ledger.shares_for_prover(7), u64::MAX);
}

#[test]
fn registry_keeps_one_entry_per_prover() {
    let mut reg = ProverRegistry::new();
    assert_eq!(reg.ensure(7, 10), BASE_SHARE_DIFFICULTY);
    // A second registration changes nothing, not even last-seen.
    assert_eq!(reg.ensure(7, 20), BASE_SHARE_DIFFICULTY);
    assert_eq!(reg.entries.len(), 1);
    assert_eq!(reg.entries[0].1.last_seen, 10);
    // A submission is what moves last-seen.
    reg.touch(7, 30);
    assert_eq!(reg.entries[0].1.last_seen, 30);
    assert_eq!(reg.entries[0].1.share_difficulty, BASE_SHARE_DIFFICULTY);
    // Touching an unknown prover registers nothing.
    reg.touch(9, 40);
    assert_eq!(reg.entries.len(), 1);
    assert_eq!(reg.difficulty_of(9), None);
    // Retargeting an unknown prover reports it unknown.
    assert!(!reg.set_difficulty(9, 17));
    assert_eq!(reg.difficulty_of(9), None);
}

#[test]
fn cache_pairs_template_and_nonces() {
    let mut cache = TemplateCache::new();
    assert_eq!(cache.snapshot(), None);
    let t1 = template(100, 5);
    cache.rotate(t1);
    assert_eq!(cache.snapshot(), Some(t1));
    assert!(cache.observe_nonce(42));
    assert!(!cache.observe_nonce(42));
    assert!(cache.observe_nonce(43));
    // Rotation replaces the template and clears the nonces as one step.
    let t2 = template(101, 6);
    cache.rotate(t2);
    assert_eq!(cache.snapshot(), Some(t2));
    assert!(cache.observe_nonce(42));
}
