use vstd::prelude::*;
use vstd::string::StringExecFns;

verus! {

/// The fewest votes a proposal needs before it can be decided.
pub const QUORUM: u64 = 5;

#[derive(Clone, Copy, Debug, PartialEq, Eq, Structural)]
pub enum ProposalStatus {
    Undecided,
    Approved,
    Rejected,
    Passed,
    NoProposal,
}

/// The decision for the given counts. Below the quorum nothing is decided;
/// otherwise the first of approve, reject, pass (in that order) that reaches
/// half of the votes, rounded down, wins.
pub open spec fn status_spec(approve: nat, reject: nat, pass: nat) -> ProposalStatus {
    let total = approve + reject + pass;
    if total < QUORUM {
        ProposalStatus::Undecided
    } else {
        let majority = total / 2;
        if approve >= majority {
            ProposalStatus::Approved
        } else if reject >= majority {
            ProposalStatus::Rejected
        } else if pass >= majority {
            ProposalStatus::Passed
        } else {
            ProposalStatus::Undecided
        }
    }
}

/// Computes the decision for the given counts.
pub fn tally_status(approve: u32, reject: u32, pass: u32) -> (r: ProposalStatus)
    ensures
        r == status_spec(approve as nat, reject as nat, pass as nat),
{
    let total: u64 = approve as u64 + reject as u64 + pass as u64;
    if total < QUORUM {
        return ProposalStatus::Undecided;
    }
    let majority: u64 = total / 2;
    if approve as u64 >= majority {
        ProposalStatus::Approved
    } else if reject as u64 >= majority {
        ProposalStatus::Rejected
    } else if pass as u64 >= majority {
        ProposalStatus::Passed
    } else {
        ProposalStatus::Undecided
    }
}

impl ProposalStatus {
    pub open spec fn label_spec(self) -> Seq<char> {
        match self {
            ProposalStatus::Undecided => "UNDECIDED"@,
            ProposalStatus::Approved => "APPROVED"@,
            ProposalStatus::Rejected => "REJECTED"@,
            ProposalStatus::Passed => "PASSED"@,
            ProposalStatus::NoProposal => "NO_PROPOSAL"@,
        }
    }

    /// The label under which the status is reported to callers.
    pub fn label(&self) -> (r: String)
        ensures
            r@ == self.label_spec(),
    {
        match self {
            ProposalStatus::Undecided => String::from_str("UNDECIDED"),
            ProposalStatus::Approved => String::from_str("APPROVED"),
            ProposalStatus::Rejected => String::from_str("REJECTED"),
            ProposalStatus::Passed => String::from_str("PASSED"),
            ProposalStatus::NoProposal => String::from_str("NO_PROPOSAL"),
        }
    }
}

} // verus!
