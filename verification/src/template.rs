//! Plain-value models of the data the operator's logic reads.
//!
//! Block templates, coinbase records, roots, hashes, nonces, proofs, and
//! prover addresses are opaque to the operator: it only compares them, copies
//! them, and hands them on. Each is therefore carried as a plain integer
//! identifier; the enclosing node converts between these identifiers and the
//! ledger's own types.

use vstd::prelude::*;

verus! {

/// A socket address of a peer, as the transport layer reports it.
#[derive(Clone, Copy, PartialEq, Eq, Structural, Debug)]
pub struct PeerAddr {
    /// The peer's IPv4 address, in big-endian byte order.
    pub ip: u32,
    /// The peer's port.
    pub port: u16,
}

/// The block template a round is mined on. Created by the ledger reader,
/// installed by the refresher, and never mutated in place.
#[derive(Clone, Copy, PartialEq, Eq, Structural, Debug)]
pub struct BlockTemplate {
    /// The height of the block being mined; one above the ledger tip at the
    /// instant of rotation.
    pub block_height: u32,
    /// The hash of the previous block.
    pub previous_block_hash: u64,
    /// The ledger root preceding this block.
    pub previous_ledger_root: u64,
    /// The root of the template's committed transactions.
    pub transactions_root: u64,
    /// The header root provers search nonces over.
    pub header_root: u64,
    /// The operator-controlled coinbase record for this round.
    pub coinbase_record: u64,
}

/// Whether a cached template is stale against the ledger tip: a template is
/// stale when there is none, or when its height is not one above the tip.
pub open spec fn spec_template_stale(template: Option<BlockTemplate>, latest_block_height: u32) -> bool {
    match template {
        Option::None => true,
        Option::Some(t) => t.block_height != if latest_block_height == u32::MAX {
            u32::MAX
        } else {
            (latest_block_height + 1) as u32
        },
    }
}

/// Refresher idempotence: when the cached template already sits one above the
/// ledger tip, it is not stale, so the refresher neither rotates the cache nor
/// broadcasts a new template.
pub proof fn lemma_refresh_idempotent(template: BlockTemplate, latest_block_height: u32)
    requires
        latest_block_height < u32::MAX,
        template.block_height == latest_block_height + 1,
    ensures
        !spec_template_stale(Some(template), latest_block_height),
{
}

} // verus!
