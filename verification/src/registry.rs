//! The in-memory prover registry.
//!
//! For every prover address that has registered or submitted, the registry
//! keeps the instant of the last submission and the prover's share-difficulty
//! target. Entries persist across rounds and are never evicted. The "instant"
//! is a plain monotonic timestamp handed in by the caller: the clock belongs
//! to the enclosing node.

use vstd::prelude::*;
use crate::assoc::{assoc_map, keys_distinct, lemma_assoc_map_dom, lemma_assoc_map_index,
    lemma_assoc_map_push, lemma_assoc_map_update};

verus! {

/// The predefined base share difficulty, assigned to every prover on first
/// contact and kept until an explicit retarget.
pub const BASE_SHARE_DIFFICULTY: u64 = u64::MAX / 5;

/// Per-prover state: the instant of the last credited submission and the
/// prover's share-difficulty target.
#[derive(Clone, Copy, PartialEq, Eq, Structural, Debug)]
pub struct ProverInfo {
    /// When the prover last submitted, as a caller-supplied monotonic instant.
    pub last_seen: u64,
    /// The per-prover target that submitted proofs are judged against.
    pub share_difficulty: u64,
}

/// Registering a prover: absent addresses are inserted at the base share
/// difficulty; present ones are left exactly as they are.
pub open spec fn spec_ensure(m: Map<u64, ProverInfo>, address: u64, now: u64) -> Map<u64, ProverInfo> {
    if m.contains_key(address) {
        m
    } else {
        m.insert(address, ProverInfo { last_seen: now, share_difficulty: BASE_SHARE_DIFFICULTY })
    }
}

/// The share difficulty a prover holds after registration: the stored value
/// when present, the base value when freshly inserted.
pub open spec fn spec_ensured_difficulty(m: Map<u64, ProverInfo>, address: u64) -> u64 {
    if m.contains_key(address) {
        m[address].share_difficulty
    } else {
        BASE_SHARE_DIFFICULTY
    }
}

/// Touching a prover: updates `last_seen` of a present entry and changes
/// nothing else; a no-op for an absent address.
pub open spec fn spec_touch(m: Map<u64, ProverInfo>, address: u64, now: u64) -> Map<u64, ProverInfo> {
    if m.contains_key(address) {
        m.insert(address, ProverInfo { last_seen: now, share_difficulty: m[address].share_difficulty })
    } else {
        m
    }
}

/// The in-memory registry of provers, keyed by prover address.
pub struct ProverRegistry {
    /// The registered provers, one entry per distinct address.
    pub entries: Vec<(u64, ProverInfo)>,
}

impl View for ProverRegistry {
    type V = Map<u64, ProverInfo>;

    open spec fn view(&self) -> Map<u64, ProverInfo> {
        assoc_map(self.entries@)
    }
}

impl ProverRegistry {
    /// The representation invariant: one entry per address, and every share
    /// difficulty is at least one.
    pub open spec fn wf(&self) -> bool {
        &&& keys_distinct(self.entries@)
        &&& forall|i: int| 0 <= i < self.entries@.len() ==> self.entries@[i].1.share_difficulty >= 1
    }

    /// An empty registry.
    pub fn new() -> (r: Self)
        ensures
            r.wf(),
            r@ == Map::<u64, ProverInfo>::empty(),
    {
        ProverRegistry { entries: Vec::new() }
    }

    /// The index of the entry for `address`, if the address is registered.
    fn find(&self, address: u64) -> (pos: Option<usize>)
        ensures
            match pos {
                Some(i) => i < self.entries@.len() && self.entries@[i as int].0 == address,
                None => forall|i: int| 0 <= i < self.entries@.len() ==> self.entries@[i].0 != address,
            },
    {
        let n = self.entries.len();
        let mut i: usize = 0;
        while i < n
            invariant
                0 <= i <= n,
                n == self.entries@.len(),
                forall|j: int| 0 <= j < i ==> self.entries@[j].0 != address,
            decreases n - i,
        {
            if self.entries[i].0 == address {
                return Some(i);
            }
            i += 1;
        }
        None
    }

    /// Makes sure the prover is registered, inserting it at the base share
    /// difficulty if it was absent, and returns its stored share difficulty.
    pub fn ensure(&mut self, address: u64, now: u64) -> (difficulty: u64)
        requires
            old(self).wf(),
        ensures
            final(self).wf(),
            final(self)@ == spec_ensure(old(self)@, address, now),
            difficulty == spec_ensured_difficulty(old(self)@, address),
    {
        proof {
            lemma_assoc_map_dom(self.entries@);
        }
        match self.find(address) {
            Some(i) => {
                proof {
                    lemma_assoc_map_index(self.entries@, i as int);
                }
                self.entries[i].1.share_difficulty
            }
            None => {
                proof {
                    lemma_assoc_map_push(
                        self.entries@,
                        address,
                        ProverInfo { last_seen: now, share_difficulty: BASE_SHARE_DIFFICULTY },
                    );
                }
                self.entries.push(
                    (address, ProverInfo { last_seen: now, share_difficulty: BASE_SHARE_DIFFICULTY }),
                );
                BASE_SHARE_DIFFICULTY
            }
        }
    }

    /// Records a submission instant for a registered prover; a no-op when the
    /// address is absent.
    pub fn touch(&mut self, address: u64, now: u64)
        requires
            old(self).wf(),
        ensures
            final(self).wf(),
            final(self)@ == spec_touch(old(self)@, address, now),
    {
        proof {
            lemma_assoc_map_dom(self.entries@);
        }
        match self.find(address) {
            Some(i) => {
                proof {
                    lemma_assoc_map_index(self.entries@, i as int);
                    lemma_assoc_map_update(
                        self.entries@,
                        i as int,
                        ProverInfo {
                            last_seen: now,
                            share_difficulty: self.entries@[i as int].1.share_difficulty,
                        },
                    );
                }
                self.entries[i].1.last_seen = now;
            }
            None => {}
        }
    }

    /// The share difficulty of a registered prover, `None` for an unknown one.
    pub fn difficulty_of(&self, address: u64) -> (difficulty: Option<u64>)
        requires
            self.wf(),
        ensures
            difficulty == if self@.contains_key(address) {
                Some(self@[address].share_difficulty)
            } else {
                None::<u64>
            },
    {
        proof {
            lemma_assoc_map_dom(self.entries@);
        }
        match self.find(address) {
            Some(i) => {
                proof {
                    lemma_assoc_map_index(self.entries@, i as int);
                }
                Some(self.entries[i].1.share_difficulty)
            }
            None => None,
        }
    }

    /// The retargeting hook: sets the share difficulty of a registered prover
    /// and reports whether the address was known. The last-seen instant is
    /// kept; an absent address is left absent.
    pub fn set_difficulty(&mut self, address: u64, difficulty: u64) -> (known: bool)
        requires
            old(self).wf(),
            difficulty >= 1,
        ensures
            final(self).wf(),
            known == old(self)@.contains_key(address),
            final(self)@ == if old(self)@.contains_key(address) {
                old(self)@.insert(
                    address,
                    ProverInfo {
                        last_seen: old(self)@[address].last_seen,
                        share_difficulty: difficulty,
                    },
                )
            } else {
                old(self)@
            },
    {
        proof {
            lemma_assoc_map_dom(self.entries@);
        }
        match self.find(address) {
            Some(i) => {
                proof {
                    lemma_assoc_map_index(self.entries@, i as int);
                    lemma_assoc_map_update(
                        self.entries@,
                        i as int,
                        ProverInfo {
                            last_seen: self.entries@[i as int].1.last_seen,
                            share_difficulty: difficulty,
                        },
                    );
                }
                self.entries[i].1.share_difficulty = difficulty;
                true
            }
            None => false,
        }
    }
}

/// Registration never changes the share difficulty of a prover that is
/// already registered, and gives a freshly registered prover exactly the base
/// share difficulty: until an explicit retarget, `difficulty_of` keeps
/// answering the base value for every address first seen by registration.
pub proof fn lemma_difficulty_stable_under_ensure(
    m: Map<u64, ProverInfo>,
    address: u64,
    other: u64,
    now: u64,
)
    ensures
        m.contains_key(address) ==> spec_ensure(m, other, now)[address].share_difficulty
            == m[address].share_difficulty,
        !m.contains_key(address) && spec_ensure(m, other, now).contains_key(address)
            ==> spec_ensure(m, other, now)[address].share_difficulty == BASE_SHARE_DIFFICULTY,
{
}

/// Touching never changes any prover's share difficulty, nor which provers
/// are registered.
pub proof fn lemma_difficulty_stable_under_touch(
    m: Map<u64, ProverInfo>,
    address: u64,
    other: u64,
    now: u64,
)
    ensures
        spec_touch(m, other, now).contains_key(address) == m.contains_key(address),
        m.contains_key(address) ==> spec_touch(m, other, now)[address].share_difficulty
            == m[address].share_difficulty,
{
}

} // verus!
