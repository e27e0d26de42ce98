use vstd::prelude::*;

use crate::credential::Credential;

verus! {

/// The longest description, in characters, that a proposal may carry. The
/// persisted form of a record is bounded in size, so oversized text is
/// refused before anything is written.
pub const MAX_DESCRIPTION_CHARS: usize = 1000;

/// One proposal under vote.
pub struct Proposal {
    pub description: String,
    pub approve: u32,
    pub reject: u32,
    pub pass: u32,
    pub is_active: bool,
    pub voted: Vec<Credential>,
    pub owner: Credential,
}

/// What a caller supplies when creating or editing a proposal.
pub struct CreateProposal {
    pub description: String,
    pub is_active: bool,
}

#[derive(Clone, Copy, Debug, PartialEq, Eq, Structural)]
pub enum VoteTypes {
    Approve,
    Reject,
    Pass,
}

#[derive(Clone, Copy, Debug, PartialEq, Eq, Structural)]
pub enum VoteError {
    AlreadyVoted,
    ProposalNotActive,
    Unauthorized,
    NoProposal,
    UpdateError,
    VoteFailed,
    DescriptionTooLong,
}

/// The mathematical content of a proposal.
pub struct ProposalView {
    pub description: Seq<char>,
    pub approve: nat,
    pub reject: nat,
    pub pass: nat,
    pub is_active: bool,
    pub voted: Seq<Seq<u8>>,
    pub owner: Seq<u8>,
}

pub open spec fn credentials_view(v: Seq<Credential>) -> Seq<Seq<u8>> {
    v.map_values(|c: Credential| c@)
}

impl View for Proposal {
    type V = ProposalView;

    open spec fn view(&self) -> ProposalView {
        ProposalView {
            description: self.description@,
            approve: self.approve as nat,
            reject: self.reject as nat,
            pass: self.pass as nat,
            is_active: self.is_active,
            voted: credentials_view(self.voted@),
            owner: self.owner@,
        }
    }
}

impl ProposalView {
    /// Every vote bumped exactly one counter and recorded exactly one voter,
    /// and nobody is recorded twice.
    pub open spec fn wf(self) -> bool {
        &&& self.approve + self.reject + self.pass == self.voted.len()
        &&& self.voted.no_duplicates()
    }

    pub open spec fn total(self) -> nat {
        self.approve + self.reject + self.pass
    }

    pub open spec fn has_voted(self, c: Seq<u8>) -> bool {
        self.voted.contains(c)
    }
}

/// The record that `create` stores: zero counters, nobody has voted.
pub open spec fn fresh_proposal(description: Seq<char>, is_active: bool, owner: Seq<u8>) -> ProposalView {
    ProposalView {
        description,
        approve: 0,
        reject: 0,
        pass: 0,
        is_active,
        voted: Seq::empty(),
        owner,
    }
}

/// The record after `choice` has been cast by `voter`.
pub open spec fn with_vote(p: ProposalView, choice: VoteTypes, voter: Seq<u8>) -> ProposalView {
    ProposalView {
        approve: if choice == VoteTypes::Approve { p.approve + 1 } else { p.approve },
        reject: if choice == VoteTypes::Reject { p.reject + 1 } else { p.reject },
        pass: if choice == VoteTypes::Pass { p.pass + 1 } else { p.pass },
        voted: p.voted.push(voter),
        ..p
    }
}

/// The counter that `choice` bumps.
pub open spec fn counter_for(p: ProposalView, choice: VoteTypes) -> nat {
    match choice {
        VoteTypes::Approve => p.approve,
        VoteTypes::Reject => p.reject,
        VoteTypes::Pass => p.pass,
    }
}

/// Whether `c` is among `voted`.
pub fn contains_voter(voted: &Vec<Credential>, c: &Credential) -> (r: bool)
    ensures
        r == credentials_view(voted@).contains(c@),
{
    let n = voted.len();
    let mut i: usize = 0;
    while i < n
        invariant
            n == voted@.len(),
            i <= n,
            forall|j: int| 0 <= j < i ==> voted@[j]@ != c@,
        decreases n - i,
    {
        if voted[i].same_as(c) {
            assert(credentials_view(voted@)[i as int] == c@);
            return true;
        }
        i = i + 1;
    }
    proof {
        if credentials_view(voted@).contains(c@) {
            let j = choose|j: int| 0 <= j < n && credentials_view(voted@)[j] == c@;
            assert(voted@[j]@ == c@);
        }
    }
    false
}

impl Proposal {
    /// A fresh record holding the same content.
    pub fn duplicate(&self) -> (r: Proposal)
        ensures
            r@ == self@,
    {
        let mut voted: Vec<Credential> = Vec::new();
        let n = self.voted.len();
        let mut i: usize = 0;
        while i < n
            invariant
                n == self.voted@.len(),
                i <= n,
                voted@.len() == i,
                forall|j: int| 0 <= j < i ==> voted@[j]@ == self.voted@[j]@,
            decreases n - i,
        {
            voted.push(self.voted[i].duplicate());
            i = i + 1;
        }
        let r = Proposal {
            description: self.description.clone(),
            approve: self.approve,
            reject: self.reject,
            pass: self.pass,
            is_active: self.is_active,
            voted,
            owner: self.owner.duplicate(),
        };
        assert(credentials_view(r.voted@) =~= credentials_view(self.voted@));
        r
    }
}

} // verus!
