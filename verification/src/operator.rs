//! The operator: the serialized dispatcher over the pool's state.
//!
//! Every inbound request goes through [`Operator::update`], so that a unified
//! view is preserved. The outside work a request needs — PoSW verification,
//! header and block assembly, sends to peers and to the ledger — is done by
//! the enclosing node between the operator's steps: `update` hands back what
//! to do, and the matching `settle` call hands the outcome back in. Everything
//! a later step depends on (the template, the prover's difficulty, the nonce)
//! is snapshotted into the step when the request is admitted, so a template
//! rotation that lands mid-request cannot cross-mix two rounds.

use vstd::prelude::*;
use crate::cache::{CacheView, TemplateCache, spec_observe, spec_rotate};
use crate::registry::{ProverInfo, ProverRegistry, spec_ensure, spec_ensured_difficulty, spec_touch};
use crate::assoc::assoc_map;
use crate::shares::{RoundKey, ShareError, ShareLedger, spec_credit, spec_is_prover,
    spec_prover_total, spec_round_of, spec_rows, spec_share_count};
use crate::template::{BlockTemplate, PeerAddr, spec_template_stale};

verus! {

/// A request to the operator, handled in receipt order.
#[derive(Clone, Copy, PartialEq, Eq, Structural, Debug)]
pub enum OperatorRequest {
    /// A prover registers with the pool: the peer to answer, and the prover's
    /// address.
    PoolRegister(PeerAddr, u64),
    /// A prover submits a share: the submitting peer, the prover's address,
    /// the nonce, and the PoSW proof.
    PoolResponse(PeerAddr, u64, u64, u64),
    /// A block found out-of-band: the nonce and the PoSW proof.
    PoolBlock(u64, u64),
}

/// The reasons a request is dropped with a warning.
#[derive(Clone, Copy, PartialEq, Eq, Structural, Debug)]
pub enum ProtocolFault {
    /// No block template has been installed yet.
    NoBlockTemplate,
    /// The nonce was already seen under the current template.
    DuplicateNonce,
}

/// The unicast answer to a registration: the prover's share difficulty and
/// the current template.
#[derive(Clone, Copy, PartialEq, Eq, Structural, Debug)]
pub struct PoolRequestMessage {
    /// The peer the message is addressed to.
    pub peer: PeerAddr,
    /// The registered prover's share-difficulty target.
    pub share_difficulty: u64,
    /// The template of the current round.
    pub template: BlockTemplate,
}

/// The broadcast that follows a rotation, addressed to every pool-connected
/// peer.
#[derive(Clone, Copy, PartialEq, Eq, Structural, Debug)]
pub struct NewBlockTemplateMessage {
    /// The freshly installed template.
    pub template: BlockTemplate,
}

/// The submission of an assembled block to the ledger layer. The node must
/// invalidate the ledger's coinbase cache before sending it.
#[derive(Clone, Copy, PartialEq, Eq, Structural, Debug)]
pub struct UnconfirmedBlockMessage {
    /// The height of the assembled block; always the height of the round the
    /// proof was admitted under.
    pub block_height: u32,
    /// The hash of the assembled block.
    pub block_hash: u64,
}

/// A share submission that has been admitted and awaits the verifier's
/// verdict. Everything the rest of the request depends on is snapshotted
/// here, so a rotation that lands meanwhile cannot change what the share is
/// judged and credited against.
#[derive(Clone, Copy, PartialEq, Eq, Structural, Debug)]
pub struct ShareAttempt {
    /// The submitting peer.
    pub peer: PeerAddr,
    /// The submitting prover's address.
    pub prover: u64,
    /// The submitted nonce; already recorded as seen.
    pub nonce: u64,
    /// The submitted PoSW proof.
    pub proof_id: u64,
    /// The template of the rotation the submission was admitted under.
    pub template: BlockTemplate,
    /// The prover's share difficulty at admission; the verifier must judge
    /// the proof against exactly this target, this template's header root,
    /// and this nonce.
    pub share_difficulty: u64,
}

/// A block candidate that awaits header and block assembly against the
/// snapshotted template.
#[derive(Clone, Copy, PartialEq, Eq, Structural, Debug)]
pub struct BlockAttempt {
    /// The nonce of the candidate.
    pub nonce: u64,
    /// The PoSW proof of the candidate.
    pub proof_id: u64,
    /// The template the candidate is assembled against.
    pub template: BlockTemplate,
}

/// What one dispatch step asks of the enclosing node.
#[derive(Clone, Copy, PartialEq, Eq, Structural, Debug)]
pub enum UpdateStep {
    /// The request was dropped; log the fault and move on.
    Ignored(ProtocolFault),
    /// Answer a registration by unicasting this message to its peer.
    Reply(PoolRequestMessage),
    /// Run the PoSW verifier over the attempt's height, share difficulty,
    /// header root and nonce, then call `settle_share` with the verdict.
    VerifyShare(ShareAttempt),
    /// Attempt header and block assembly, then call `settle_block` with the
    /// result.
    AssembleBlock(BlockAttempt),
}

/// The outcome of settling a share submission.
#[derive(Clone, Copy, PartialEq, Eq, Debug)]
pub struct ShareSettlement {
    /// The ledger's answer when a share was credited; `None` when the proof
    /// was invalid and nothing was credited.
    pub credited: Option<Result<(), ShareError>>,
    /// The assembly the node should attempt next; present exactly when the
    /// proof was valid, since a valid share may also be a network block.
    pub assemble: Option<BlockAttempt>,
}

/// The abstract state of the operator: the rotation unit, the prover
/// registry, and the share ledger.
pub struct OperatorView {
    /// The current template paired with its known nonces.
    pub cache: CacheView,
    /// The registered provers.
    pub provers: Map<u64, ProverInfo>,
    /// The credited shares, by round and prover.
    pub shares: Map<RoundKey, Map<u64, u64>>,
}

/// One dispatch step over the abstract state: the state after the request is
/// admitted, and what the node is asked to do next.
pub open spec fn spec_update(s: OperatorView, request: OperatorRequest, now: u64) -> (
    OperatorView,
    UpdateStep,
) {
    match request {
        OperatorRequest::PoolRegister(peer, prover) => match s.cache.template {
            Option::None => (s, UpdateStep::Ignored(ProtocolFault::NoBlockTemplate)),
            Option::Some(t) => (
                OperatorView {
                    cache: s.cache,
                    provers: spec_ensure(s.provers, prover, now),
                    shares: s.shares,
                },
                UpdateStep::Reply(
                    PoolRequestMessage {
                        peer,
                        share_difficulty: spec_ensured_difficulty(s.provers, prover),
                        template: t,
                    },
                ),
            ),
        },
        OperatorRequest::PoolResponse(peer, prover, nonce, proof_id) => match s.cache.template {
            Option::None => (s, UpdateStep::Ignored(ProtocolFault::NoBlockTemplate)),
            Option::Some(t) => if s.cache.nonces.contains(nonce) {
                (s, UpdateStep::Ignored(ProtocolFault::DuplicateNonce))
            } else {
                (
                    OperatorView {
                        cache: spec_observe(s.cache, nonce).0,
                        provers: spec_ensure(s.provers, prover, now),
                        shares: s.shares,
                    },
                    UpdateStep::VerifyShare(
                        ShareAttempt {
                            peer,
                            prover,
                            nonce,
                            proof_id,
                            template: t,
                            share_difficulty: spec_ensured_difficulty(s.provers, prover),
                        },
                    ),
                )
            },
        },
        OperatorRequest::PoolBlock(nonce, proof_id) => match s.cache.template {
            Option::None => (s, UpdateStep::Ignored(ProtocolFault::NoBlockTemplate)),
            Option::Some(t) => (
                s,
                UpdateStep::AssembleBlock(BlockAttempt { nonce, proof_id, template: t }),
            ),
        },
    }
}

/// Settling a judged share over the abstract state: a valid proof touches the
/// prover and credits one share under the attempt's round; an invalid proof
/// changes nothing.
pub open spec fn spec_settle_share(
    s: OperatorView,
    attempt: ShareAttempt,
    proof_is_valid: bool,
    now: u64,
) -> OperatorView {
    if proof_is_valid {
        OperatorView {
            cache: s.cache,
            provers: spec_touch(s.provers, attempt.prover, now),
            shares: if spec_share_count(
                s.shares,
                spec_round_of(attempt.template),
                attempt.prover,
            ) < u64::MAX {
                spec_credit(s.shares, spec_round_of(attempt.template), attempt.prover)
            } else {
                s.shares
            },
        }
    } else {
        s
    }
}

/// The operator of the pool. Exactly one writer mutates it; the enclosing
/// node drains the request queue into `update` one request at a time.
pub struct Operator {
    /// The rotation unit: the current template and its known nonces.
    pub cache: TemplateCache,
    /// The registered provers and their share difficulties.
    pub provers: ProverRegistry,
    /// The credited shares.
    pub shares: ShareLedger,
}

impl View for Operator {
    type V = OperatorView;

    open spec fn view(&self) -> OperatorView {
        OperatorView { cache: self.cache@, provers: self.provers@, shares: self.shares@ }
    }
}

impl Operator {
    /// The representation invariant of the operator's components.
    pub open spec fn wf(&self) -> bool {
        &&& self.provers.wf()
        &&& self.shares.wf()
    }

    /// Opens a fresh operator: no template yet, no registered provers, no
    /// recorded shares.
    pub fn open() -> (op: Self)
        ensures
            op.wf(),
            op@.cache.template is None,
            op@.cache.nonces == Set::<u64>::empty(),
            op@.provers == Map::<u64, ProverInfo>::empty(),
            op@.shares == Map::<RoundKey, Map<u64, u64>>::empty(),
            op.shares.rows() == Seq::<(RoundKey, Seq<(u64, u64)>)>::empty(),
    {
        Operator {
            cache: TemplateCache::new(),
            provers: ProverRegistry::new(),
            shares: ShareLedger::new(),
        }
    }

    /// Performs one request against the operator's state and says what the
    /// node must do next. All requests go through here, in receipt order.
    pub fn update(&mut self, request: OperatorRequest, now: u64) -> (step: UpdateStep)
        requires
            old(self).wf(),
        ensures
            final(self).wf(),
            final(self)@ == spec_update(old(self)@, request, now).0,
            step == spec_update(old(self)@, request, now).1,
            final(self).shares.rows() == old(self).shares.rows(),
    {
        match request {
            OperatorRequest::PoolRegister(peer, prover) => match self.cache.snapshot() {
                None => UpdateStep::Ignored(ProtocolFault::NoBlockTemplate),
                Some(template) => {
                    let share_difficulty = self.provers.ensure(prover, now);
                    UpdateStep::Reply(PoolRequestMessage { peer, share_difficulty, template })
                },
            },
            OperatorRequest::PoolResponse(peer, prover, nonce, proof_id) => match self
                .cache
                .snapshot() {
                None => UpdateStep::Ignored(ProtocolFault::NoBlockTemplate),
                Some(template) => {
                    if !self.cache.observe_nonce(nonce) {
                        proof {
                            // Re-observing a known nonce leaves the nonce set as it was.
                            assert(old(self)@.cache.nonces.insert(nonce) =~= old(self)@.cache.nonces);
                        }
                        UpdateStep::Ignored(ProtocolFault::DuplicateNonce)
                    } else {
                        let share_difficulty = self.provers.ensure(prover, now);
                        UpdateStep::VerifyShare(
                            ShareAttempt {
                                peer,
                                prover,
                                nonce,
                                proof_id,
                                template,
                                share_difficulty,
                            },
                        )
                    }
                },
            },
            OperatorRequest::PoolBlock(nonce, proof_id) => match self.cache.snapshot() {
                None => UpdateStep::Ignored(ProtocolFault::NoBlockTemplate),
                Some(template) => UpdateStep::AssembleBlock(
                    BlockAttempt { nonce, proof_id, template },
                ),
            },
        }
    }

    /// Settles an admitted share with the verifier's verdict. A valid proof
    /// records the prover's submission instant and credits one share under
    /// the round snapshotted at admission — even if the template has rotated
    /// meanwhile — and asks the node to attempt block assembly, since the
    /// proof may also meet the network difficulty. An invalid proof changes
    /// nothing. A ledger failure is reported but does not stop the request:
    /// the proof may still be a network block.
    pub fn settle_share(&mut self, attempt: &ShareAttempt, proof_is_valid: bool, now: u64) -> (outcome: ShareSettlement)
        requires
            old(self).wf(),
        ensures
            final(self).wf(),
            final(self)@ == spec_settle_share(old(self)@, *attempt, proof_is_valid, now),
            outcome.credited == if proof_is_valid {
                Some(
                    if spec_share_count(
                        old(self)@.shares,
                        spec_round_of(attempt.template),
                        attempt.prover,
                    ) < u64::MAX {
                        Ok::<(), ShareError>(())
                    } else {
                        Err::<(), ShareError>(ShareError::CounterSaturated)
                    },
                )
            } else {
                None::<Result<(), ShareError>>
            },
            outcome.assemble == if proof_is_valid {
                Some(
                    BlockAttempt {
                        nonce: attempt.nonce,
                        proof_id: attempt.proof_id,
                        template: attempt.template,
                    },
                )
            } else {
                None::<BlockAttempt>
            },
    {
        if !proof_is_valid {
            return ShareSettlement { credited: None, assemble: None };
        }
        self.provers.touch(attempt.prover, now);
        let credited = self.shares.increment_share(
            attempt.template.block_height,
            attempt.template.coinbase_record,
            attempt.prover,
        );
        ShareSettlement {
            credited: Some(credited),
            assemble: Some(
                BlockAttempt {
                    nonce: attempt.nonce,
                    proof_id: attempt.proof_id,
                    template: attempt.template,
                },
            ),
        }
    }

    /// Whether the cached template is stale against the ledger tip; the
    /// refresher rebuilds and rotates exactly when this holds.
    pub fn is_template_stale(&self, latest_block_height: u32) -> (stale: bool)
        ensures
            stale == spec_template_stale(self@.cache.template, latest_block_height),
    {
        match self.cache.snapshot() {
            None => true,
            Some(t) => {
                let next = if latest_block_height == u32::MAX {
                    u32::MAX
                } else {
                    latest_block_height + 1
                };
                t.block_height != next
            },
        }
    }

    /// Installs a freshly built template, clearing the known nonces in the
    /// same step, and returns the broadcast for the pool-connected peers.
    /// Provers and shares are untouched.
    pub fn rotate(&mut self, template: BlockTemplate) -> (msg: NewBlockTemplateMessage)
        requires
            old(self).wf(),
        ensures
            final(self).wf(),
            final(self)@.cache == spec_rotate(old(self)@.cache, template),
            final(self)@.provers == old(self)@.provers,
            final(self)@.shares == old(self)@.shares,
            final(self).shares.rows() == old(self).shares.rows(),
            msg == (NewBlockTemplateMessage { template }),
    {
        self.cache.rotate(template);
        NewBlockTemplateMessage { template }
    }

    /// Every recorded round with its per-prover counts.
    pub fn to_shares(&self) -> (all: Vec<(RoundKey, Vec<(u64, u64)>)>)
        ensures
            spec_rows(all@) == self.shares.rows(),
    {
        self.shares.all_shares()
    }

    /// The per-prover counts of one round, given the round's block height and
    /// coinbase record.
    pub fn get_shares_for_block(&self, block_height: u32, coinbase_record: u64) -> (row: Vec<
        (u64, u64),
    >)
        requires
            self.wf(),
        ensures
            assoc_map(row@) == ({
                let key = RoundKey { block_height, coinbase_record };
                if self@.shares.contains_key(key) {
                    self@.shares[key]
                } else {
                    Map::<u64, u64>::empty()
                }
            }),
    {
        self.shares.shares_for_block(block_height, coinbase_record)
    }

    /// The total credited share count of one prover across every round.
    pub fn get_shares_for_prover(&self, prover: u64) -> (total: u64)
        requires
            self.wf(),
        ensures
            ({
                let t = spec_prover_total(self.shares.rows(), prover);
                if t <= u64::MAX {
                    total == t
                } else {
                    total == u64::MAX
                }
            }),
    {
        self.shares.shares_for_prover(prover)
    }

    /// Every prover that has ever been credited a share, each listed once.
    pub fn get_provers(&self) -> (ps: Vec<u64>)
        ensures
            ps@.no_duplicates(),
            forall|p: u64| ps@.contains(p) <==> spec_is_prover(self.shares.rows(), p),
    {
        self.shares.provers()
    }
}

/// Settles an assembly attempt: when the node's assembly succeeded — which it
/// does exactly when the proof meets the network difficulty and the header is
/// well-formed — the block is submitted to the ledger layer, at the height of
/// the round the proof was admitted under; a failed assembly is not an error
/// and submits nothing.
pub fn settle_block(attempt: &BlockAttempt, assembled_block_hash: Option<u64>) -> (msg: Option<
    UnconfirmedBlockMessage,
>)
    ensures
        msg == match assembled_block_hash {
            Option::Some(h) => Some(
                UnconfirmedBlockMessage {
                    block_height: attempt.template.block_height,
                    block_hash: h,
                },
            ),
            Option::None => None::<UnconfirmedBlockMessage>,
        },
{
    match assembled_block_hash {
        Some(h) => Some(
            UnconfirmedBlockMessage {
                block_height: attempt.template.block_height,
                block_hash: h,
            },
        ),
        None => None,
    }
}

} // verus!
