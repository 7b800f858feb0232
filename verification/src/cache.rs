//! The single-slot template cache: the rotation unit.
//!
//! The cache pairs the current block template with the set of nonces already
//! seen for that template. The two are held in one cell and replaced in one
//! step, so every observer sees a template together with exactly the nonce set
//! of its own rotation — never a cross-mix of two rotations.

use vstd::prelude::*;
use crate::template::BlockTemplate;

verus! {

/// The abstract state of the cache: the current template, if any, and the
/// nonces already observed under it.
pub struct CacheView {
    pub template: Option<BlockTemplate>,
    pub nonces: Set<u64>,
}

/// One observation of a nonce: the nonce is recorded, and it was fresh
/// exactly when it had not been recorded before.
pub open spec fn spec_observe(c: CacheView, nonce: u64) -> (CacheView, bool) {
    (CacheView { template: c.template, nonces: c.nonces.insert(nonce) }, !c.nonces.contains(nonce))
}

/// One rotation: the new template is installed and the nonce set is cleared,
/// as a single step.
pub open spec fn spec_rotate(c: CacheView, template: BlockTemplate) -> CacheView {
    CacheView { template: Some(template), nonces: Set::empty() }
}

/// The single-slot holder for the current template and its known nonces.
pub struct TemplateCache {
    /// The current block template, if a rotation has happened yet.
    pub template: Option<BlockTemplate>,
    /// The nonces observed under the current template.
    pub known_nonces: Vec<u64>,
}

impl View for TemplateCache {
    type V = CacheView;

    open spec fn view(&self) -> CacheView {
        CacheView { template: self.template, nonces: self.known_nonces@.to_set() }
    }
}

impl TemplateCache {
    /// An empty cache: no template yet, no nonces seen.
    pub fn new() -> (c: Self)
        ensures
            c@.template is None,
            c@.nonces == Set::<u64>::empty(),
    {
        let c = TemplateCache { template: None, known_nonces: Vec::new() };
        proof {
            assert(c@.nonces =~= Set::<u64>::empty());
        }
        c
    }

    /// A consistent snapshot of the current template; `None` when no template
    /// has been installed yet.
    pub fn snapshot(&self) -> (t: Option<BlockTemplate>)
        ensures
            t == self@.template,
    {
        self.template
    }

    /// Replaces the template and clears the known nonces as one atomic step.
    pub fn rotate(&mut self, template: BlockTemplate)
        ensures
            final(self)@ == spec_rotate(old(self)@, template),
    {
        self.template = Some(template);
        self.known_nonces.clear();
        proof {
            assert(self@.nonces =~= Set::<u64>::empty());
        }
    }

    /// Atomic test-and-set of a nonce against the current rotation: records
    /// the nonce and reports whether it was fresh.
    pub fn observe_nonce(&mut self, nonce: u64) -> (fresh: bool)
        ensures
            final(self)@ == spec_observe(old(self)@, nonce).0,
            fresh == spec_observe(old(self)@, nonce).1,
    {
        let mut i: usize = 0;
        let n = self.known_nonces.len();
        while i < n
            invariant
                0 <= i <= n,
                n == self.known_nonces.len(),
                forall|j: int| 0 <= j < i ==> self.known_nonces@[j] != nonce,
            decreases n - i,
        {
            if self.known_nonces[i] == nonce {
                proof {
                    assert(old(self)@.nonces.contains(nonce));
                    assert(self@.nonces =~= old(self)@.nonces.insert(nonce));
                }
                return false;
            }
            i += 1;
        }
        proof {
            assert(!old(self)@.nonces.contains(nonce));
        }
        self.known_nonces.push(nonce);
        proof {
            old(self).known_nonces@.lemma_push_to_set_commute(nonce);
            assert(self@.nonces =~= old(self)@.nonces.insert(nonce));
        }
        true
    }
}

/// Under a single rotation, only the first submission of a nonce is fresh:
/// once a nonce has been observed, every later observation of that nonce —
/// whatever other nonces were observed in between — is reported a duplicate.
pub proof fn lemma_duplicate_nonce_rejected(c: CacheView, nonce: u64, later: CacheView)
    requires
        later.template == c.template,
        spec_observe(c, nonce).0.nonces.subset_of(later.nonces),
    ensures
        !spec_observe(later, nonce).1,
{
}

/// Observations only grow the nonce set: whatever held as a duplicate keeps
/// holding while the rotation stands.
pub proof fn lemma_observation_monotone(c: CacheView, nonce: u64, other: u64)
    requires
        c.nonces.contains(nonce),
    ensures
        spec_observe(c, other).0.nonces.contains(nonce),
{
}

/// After a rotation, every nonce — even one already seen under the previous
/// template — is eligible again: its first observation under the new template
/// is fresh.
pub proof fn lemma_nonce_eligible_after_rotation(c: CacheView, template: BlockTemplate, nonce: u64)
    ensures
        spec_observe(spec_rotate(c, template), nonce).1,
{
    assert(!Set::<u64>::empty().contains(nonce));
}

} // verus!
