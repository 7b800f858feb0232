//! A verified mining-pool operator core.
//!
//! The operator keeps a fresh block template over the tip of a local ledger,
//! hands the template and per-prover share-difficulty targets to connected
//! provers, validates submitted proof-of-succinct-work (PoSW) shares, accounts
//! credited shares per prover per round, and promotes a share whose proof also
//! meets the network difficulty into a full block submission.
//!
//! The collaborators that surround the operator — peer transport, the ledger
//! reader, the memory pool, persistent storage, and the PoSW verifier and
//! block-assembly primitives — are consumed only through their interfaces:
//! the operator is a state machine over plain values, and the enclosing node
//! performs the outside work (verification, assembly, sends) between the
//! operator's steps.

pub mod assoc;
pub mod cache;
pub mod laws;
pub mod operator;
pub mod registry;
pub mod shares;
pub mod template;
