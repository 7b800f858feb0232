//! Laws of the operator, proved over the abstract transitions.
//!
//! Each proof function states one property the operator keeps across whole
//! request histories; the executable code refines the same transitions, so
//! the properties carry over to it.

use vstd::prelude::*;
use crate::cache::{spec_observe, spec_rotate};
use crate::operator::{OperatorRequest, OperatorView, ProtocolFault, ShareAttempt, UpdateStep,
    spec_settle_share, spec_update};
use crate::registry::spec_ensured_difficulty;
use crate::shares::{RoundKey, spec_credit, spec_round_of, spec_share_count};
use crate::template::{BlockTemplate, PeerAddr};

verus! {

/// Under a single rotation, only the first submission of a nonce is admitted:
/// once a submission with nonce `n` has been dispatched, a later submission
/// with the same nonce — whatever requests were dispatched in between, so
/// long as no rotation happened and so the nonce set only grew — is ignored
/// as a duplicate.
pub proof fn lemma_duplicate_submission_ignored(
    s: OperatorView,
    peer: PeerAddr,
    prover: u64,
    nonce: u64,
    proof_id: u64,
    now: u64,
    later: OperatorView,
    peer2: PeerAddr,
    prover2: u64,
    proof_id2: u64,
    now2: u64,
)
    requires
        s.cache.template is Some,
        later.cache.template is Some,
        spec_update(
            s,
            OperatorRequest::PoolResponse(peer, prover, nonce, proof_id),
            now,
        ).0.cache.nonces.subset_of(later.cache.nonces),
    ensures
        spec_update(later, OperatorRequest::PoolResponse(peer2, prover2, nonce, proof_id2), now2).1
            == UpdateStep::Ignored(ProtocolFault::DuplicateNonce),
{
    let after = spec_update(s, OperatorRequest::PoolResponse(peer, prover, nonce, proof_id), now).0;
    assert(after.cache.nonces.contains(nonce));
}

/// A nonce seen under one template is eligible again under the next: after a
/// rotation, a submission with any nonce — including one already recorded
/// under the previous template — is admitted for verification against the
/// new template.
pub proof fn lemma_rotation_makes_nonce_eligible(
    s: OperatorView,
    template: BlockTemplate,
    peer: PeerAddr,
    prover: u64,
    nonce: u64,
    proof_id: u64,
    now: u64,
)
    ensures
        ({
            let rotated = OperatorView {
                cache: spec_rotate(s.cache, template),
                provers: s.provers,
                shares: s.shares,
            };
            spec_update(
                rotated,
                OperatorRequest::PoolResponse(peer, prover, nonce, proof_id),
                now,
            ).1 == UpdateStep::VerifyShare(
                ShareAttempt {
                    peer,
                    prover,
                    nonce,
                    proof_id,
                    template,
                    share_difficulty: spec_ensured_difficulty(s.provers, prover),
                },
            )
        }),
{
    assert(!Set::<u64>::empty().contains(nonce));
}

/// An admitted submission snapshots its rotation: the verification the node
/// is asked for names exactly the template current at admission, the
/// submitted nonce, and the share difficulty the registry holds for the
/// prover at that instant. Since settling credits only on a positive verdict,
/// every credited share passed the PoSW verifier against these exact values.
pub proof fn lemma_admission_binds_snapshot(
    s: OperatorView,
    peer: PeerAddr,
    prover: u64,
    nonce: u64,
    proof_id: u64,
    now: u64,
    template: BlockTemplate,
)
    requires
        s.cache.template == Some(template),
        !s.cache.nonces.contains(nonce),
    ensures
        ({
            let (s1, step) = spec_update(
                s,
                OperatorRequest::PoolResponse(peer, prover, nonce, proof_id),
                now,
            );
            &&& step == UpdateStep::VerifyShare(
                ShareAttempt {
                    peer,
                    prover,
                    nonce,
                    proof_id,
                    template,
                    share_difficulty: spec_ensured_difficulty(s.provers, prover),
                },
            )
            &&& s1.provers.contains_key(prover)
            &&& s1.provers[prover].share_difficulty == spec_ensured_difficulty(s.provers, prover)
            &&& s1.cache.template == Some(template)
            &&& s1.cache.nonces == spec_observe(s.cache, nonce).0.nonces
        }),
{
}

/// No credit without verification: settling with a negative verdict leaves
/// the whole state — nonces, registry and ledger included — exactly as it
/// was.
pub proof fn lemma_no_credit_without_verification(s: OperatorView, attempt: ShareAttempt, now: u64)
    ensures
        spec_settle_share(s, attempt, false, now) == s,
{
}

/// Dispatch alone never credits: whatever the request, admission leaves the
/// share ledger untouched. Only a settlement with a positive verdict moves
/// it, so every credited share corresponds to exactly one settled submission.
pub proof fn lemma_admission_never_credits(s: OperatorView, request: OperatorRequest, now: u64)
    ensures
        spec_update(s, request, now).0.shares == s.shares,
{
}

/// Dispatch keeps the rotation: no request replaces the template, and the
/// set of known nonces only grows. Together with
/// `lemma_duplicate_submission_ignored`, any number of requests may stand
/// between a submission and its duplicate — the duplicate is still ignored,
/// until a rotation starts the next round.
pub proof fn lemma_dispatch_keeps_rotation(s: OperatorView, request: OperatorRequest, now: u64)
    ensures
        spec_update(s, request, now).0.cache.template == s.cache.template,
        s.cache.nonces.subset_of(spec_update(s, request, now).0.cache.nonces),
{
}

/// Settlement keeps the rotation too: judging and crediting a share touches
/// neither the template nor the known nonces.
pub proof fn lemma_settlement_keeps_rotation(
    s: OperatorView,
    attempt: ShareAttempt,
    verdict: bool,
    now: u64,
)
    ensures
        spec_settle_share(s, attempt, verdict, now).cache == s.cache,
{
}

/// One event of the operator's history: a dispatched request, a settled
/// share with the verifier's verdict, or a rotation by the refresher; each
/// dated with the instant it ran at where one matters.
pub enum OperatorEvent {
    /// A request went through dispatch.
    Dispatch(OperatorRequest, u64),
    /// An admitted share was settled with the verifier's verdict.
    Settle(ShareAttempt, bool, u64),
    /// The refresher installed a fresh template.
    Rotate(BlockTemplate),
}

/// The state one event leads to.
pub open spec fn spec_step(s: OperatorView, event: OperatorEvent) -> OperatorView {
    match event {
        OperatorEvent::Dispatch(request, now) => spec_update(s, request, now).0,
        OperatorEvent::Settle(attempt, verdict, now) => spec_settle_share(s, attempt, verdict, now),
        OperatorEvent::Rotate(template) => OperatorView {
            cache: spec_rotate(s.cache, template),
            provers: s.provers,
            shares: s.shares,
        },
    }
}

/// The state a whole history of events leads to.
pub open spec fn spec_run(s: OperatorView, events: Seq<OperatorEvent>) -> OperatorView
    decreases events.len(),
{
    if events.len() == 0 {
        s
    } else {
        spec_step(spec_run(s, events.drop_last()), events.last())
    }
}

/// The number of events in a history that credit one prover under one round:
/// the settlements with a positive verdict whose attempt was admitted under
/// that round and submitted by that prover.
pub open spec fn spec_credits_in(events: Seq<OperatorEvent>, key: RoundKey, prover: u64) -> int
    decreases events.len(),
{
    if events.len() == 0 {
        0
    } else {
        spec_credits_in(events.drop_last(), key, prover) + match events.last() {
            OperatorEvent::Settle(attempt, verdict, _) => if verdict
                && spec_round_of(attempt.template) == key && attempt.prover == prover {
                1int
            } else {
                0int
            },
            _ => 0int,
        }
    }
}

/// Crediting one share moves exactly one counter: the credited pair's count
/// grows by one, and every other pair's count is untouched.
proof fn lemma_credit_counts(
    m: Map<RoundKey, Map<u64, u64>>,
    credited_key: RoundKey,
    credited_prover: u64,
    key: RoundKey,
    prover: u64,
)
    requires
        spec_share_count(m, credited_key, credited_prover) < u64::MAX,
    ensures
        credited_key == key && credited_prover == prover ==> spec_share_count(
            spec_credit(m, credited_key, credited_prover),
            key,
            prover,
        ) == spec_share_count(m, key, prover) + 1,
        !(credited_key == key && credited_prover == prover) ==> spec_share_count(
            spec_credit(m, credited_key, credited_prover),
            key,
            prover,
        ) == spec_share_count(m, key, prover),
{
}

/// Share accounting is exact: across any history in which the prover's
/// counter for the round never saturates, the ledger's count for the pair
/// grows by exactly the number of settlements credited to that prover under
/// that round — dispatches, rotations, invalid proofs, other provers and
/// other rounds leave it untouched.
pub proof fn lemma_share_count_is_credit_count(
    s: OperatorView,
    events: Seq<OperatorEvent>,
    key: RoundKey,
    prover: u64,
)
    requires
        spec_share_count(s.shares, key, prover) + spec_credits_in(events, key, prover) < u64::MAX,
    ensures
        spec_share_count(spec_run(s, events).shares, key, prover) == spec_share_count(
            s.shares,
            key,
            prover,
        ) + spec_credits_in(events, key, prover),
    decreases events.len(),
{
    if events.len() > 0 {
        let rest = events.drop_last();
        assert(spec_credits_in(rest, key, prover) <= spec_credits_in(events, key, prover));
        lemma_share_count_is_credit_count(s, rest, key, prover);
        let pre = spec_run(s, rest);
        if let OperatorEvent::Settle(attempt, verdict, _) = events.last() {
            if verdict {
                let credited_key = spec_round_of(attempt.template);
                if spec_share_count(pre.shares, credited_key, attempt.prover) < u64::MAX {
                    lemma_credit_counts(pre.shares, credited_key, attempt.prover, key, prover);
                } else {
                    // The settled pair is saturated; it cannot be the tracked
                    // pair, whose count stays below the bound by assumption.
                    assert(!(credited_key == key && attempt.prover == prover));
                }
            }
        }
    }
}

/// While no rotation happens, the round stands: a history free of rotations
/// keeps the template and only grows the set of known nonces.
pub proof fn lemma_run_without_rotation_keeps_rotation(s: OperatorView, events: Seq<OperatorEvent>)
    requires
        forall|i: int| 0 <= i < events.len() ==> !(#[trigger] events[i] is Rotate),
    ensures
        spec_run(s, events).cache.template == s.cache.template,
        s.cache.nonces.subset_of(spec_run(s, events).cache.nonces),
    decreases events.len(),
{
    if events.len() > 0 {
        let rest = events.drop_last();
        lemma_run_without_rotation_keeps_rotation(s, rest);
        let pre = spec_run(s, rest);
        match events.last() {
            OperatorEvent::Dispatch(request, now) => {
                lemma_dispatch_keeps_rotation(pre, request, now);
            }
            OperatorEvent::Settle(attempt, verdict, now) => {
                lemma_settlement_keeps_rotation(pre, attempt, verdict, now);
            }
            OperatorEvent::Rotate(_) => {
                assert(events[events.len() - 1] is Rotate);
            }
        }
    }
}

/// Only the first submission of a nonce is credited under a single rotation:
/// once a submission with nonce `n` has been dispatched, a resubmission of
/// `n` after any rotation-free history — whoever submits it — is ignored as
/// a duplicate and so is never admitted, never verified, never credited.
pub proof fn lemma_first_submission_only(
    s: OperatorView,
    peer: PeerAddr,
    prover: u64,
    nonce: u64,
    proof_id: u64,
    now: u64,
    events: Seq<OperatorEvent>,
    peer2: PeerAddr,
    prover2: u64,
    proof_id2: u64,
    now2: u64,
)
    requires
        s.cache.template is Some,
        forall|i: int| 0 <= i < events.len() ==> !(#[trigger] events[i] is Rotate),
    ensures
        ({
            let admitted = spec_update(
                s,
                OperatorRequest::PoolResponse(peer, prover, nonce, proof_id),
                now,
            ).0;
            let later = spec_run(admitted, events);
            spec_update(
                later,
                OperatorRequest::PoolResponse(peer2, prover2, nonce, proof_id2),
                now2,
            ).1 == UpdateStep::Ignored(ProtocolFault::DuplicateNonce)
        }),
{
    let admitted = spec_update(s, OperatorRequest::PoolResponse(peer, prover, nonce, proof_id), now).0;
    let later = spec_run(admitted, events);
    lemma_run_without_rotation_keeps_rotation(admitted, events);
    lemma_duplicate_submission_ignored(
        s, peer, prover, nonce, proof_id, now, later, peer2, prover2, proof_id2, now2,
    );
}

} // verus!
