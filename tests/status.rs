use vote_backend::credential::Credential;
use vote_backend::status::{tally_status, ProposalStatus};

#[test]
fn tally_below_quorum() {
    assert_eq!(tally_status(0, 0, 0), ProposalStatus::Undecided);
    assert_eq!(tally_status(4, 0, 0), ProposalStatus::Undecided);
    assert_eq!(tally_status(1, 2, 1), ProposalStatus::Undecided);
}

#[test]
fn tally_priority_order() {
    assert_eq!(tally_status(3, 1, 1), ProposalStatus::Approved);
    assert_eq!(tally_status(2, 2, 1), ProposalStatus::Approved);
    assert_eq!(tally_status(1, 2, 2), ProposalStatus::Rejected);
    assert_eq!(tally_status(1, 1, 3), ProposalStatus::Passed);
}

#[test]
fn tally_no_counter_reaches_majority() {
    // total 9, majority 4: no counter reaches it
    assert_eq!(tally_status(3, 3, 3), ProposalStatus::Undecided);
}

#[test]
fn tally_large_counts_do_not_overflow() {
    // majority is floor(3 * MAX / 2), above every counter
    assert_eq!(tally_status(u32::MAX, u32::MAX, u32::MAX), ProposalStatus::Undecided);
    assert_eq!(tally_status(u32::MAX, 0, 0), ProposalStatus::Approved);
    assert_eq!(tally_status(0, u32::MAX, 1), ProposalStatus::Rejected);
}

#[test]
fn labels() {
    assert_eq!(ProposalStatus::Undecided.label(), "UNDECIDED");
    assert_eq!(ProposalStatus::Approved.label(), "APPROVED");
    assert_eq!(ProposalStatus::Rejected.label(), "REJECTED");
    assert_eq!(ProposalStatus::Passed.label(), "PASSED");
    assert_eq!(ProposalStatus::NoProposal.label(), "NO_PROPOSAL");
}

#[test]
fn credential_equality() {
    let a = Credential::new(vec![1, 2, 3]);
    assert!(a.same_as(&Credential::new(vec![1, 2, 3])));
    assert!(!a.same_as(&Credential::new(vec![1, 2])));
    assert!(!a.same_as(&Credential::new(vec![1, 2, 4])));
    assert_eq!(a.duplicate().bytes, vec![1, 2, 3]);
}
