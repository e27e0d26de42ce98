use vstd::prelude::*;

use std::collections::BTreeMap;

use crate::proposal::{Proposal, ProposalView};

verus! {

broadcast use vstd::laws_cmp::group_laws_cmp;

/// The ordered map from a proposal's identifier to its record. It overwrites
/// on `insert` without asking; callers decide whether a key may be reused.
pub struct ProposalStore {
    records: BTreeMap<u64, Proposal>,
}

impl View for ProposalStore {
    type V = Map<u64, ProposalView>;

    closed spec fn view(&self) -> Map<u64, ProposalView> {
        self.records@.map_values(|p: Proposal| p@)
    }
}

impl ProposalStore {
    /// Every stored record keeps its counters in step with its voters.
    pub open spec fn wf(&self) -> bool {
        forall|k: u64| #[trigger] self@.contains_key(k) ==> self@[k].wf()
    }

    pub fn new() -> (r: ProposalStore)
        ensures
            r@ == Map::<u64, ProposalView>::empty(),
            r.wf(),
    {
        let r = ProposalStore { records: BTreeMap::new() };
        assert(r@ =~= Map::<u64, ProposalView>::empty());
        r
    }

    /// The record stored under `key`, if any.
    pub fn get(&self, key: u64) -> (r: Option<&Proposal>)
        ensures
            match r {
                Some(p) => self@.contains_key(key) && p@ == self@[key],
                None => !self@.contains_key(key),
            },
    {
        self.records.get(&key)
    }

    /// How many records are stored.
    pub fn len(&self) -> (r: u64)
        ensures
            r == self@.len(),
    {
        proof {
            assert(self@.dom() =~= self.records@.dom());
        }
        self.records.len() as u64
    }

    /// Stores `p` under `key`, handing back what was there before.
    pub fn insert(&mut self, key: u64, p: Proposal) -> (r: Option<Proposal>)
        ensures
            final(self)@ == old(self)@.insert(key, p@),
            match r {
                Some(q) => old(self)@.contains_key(key) && q@ == old(self)@[key],
                None => !old(self)@.contains_key(key),
            },
    {
        let ghost pv = p@;
        let r = self.records.insert(key, p);
        assert(self@ =~= old(self)@.insert(key, pv));
        r
    }
}

} // verus!
