use vstd::prelude::*;
use vstd::string::StrSliceExecFns;

use crate::credential::Credential;
use crate::proposal::{
    contains_voter, counter_for, fresh_proposal, with_vote, CreateProposal, Proposal,
    ProposalView, VoteError, VoteTypes, MAX_DESCRIPTION_CHARS,
};
use crate::status::{status_spec, tally_status, ProposalStatus};
use crate::store::ProposalStore;

verus! {

/// The store after `create`: the fresh record replaces whatever was under `key`.
pub open spec fn created(
    before: Map<u64, ProposalView>,
    key: u64,
    description: Seq<char>,
    is_active: bool,
    caller: Seq<u8>,
) -> Map<u64, ProposalView> {
    before.insert(key, fresh_proposal(description, is_active, caller))
}

/// The record after its owner replaced description and activity.
pub open spec fn edited(p: ProposalView, description: Seq<char>, is_active: bool) -> ProposalView {
    ProposalView { description, is_active, ..p }
}

/// The record after its owner ended it.
pub open spec fn ended(p: ProposalView) -> ProposalView {
    ProposalView { is_active: false, ..p }
}

/// The decision reported for `key`: `NoProposal` when nothing is stored there.
pub open spec fn status_at(m: Map<u64, ProposalView>, key: u64) -> ProposalStatus {
    if m.contains_key(key) {
        status_spec(m[key].approve, m[key].reject, m[key].pass)
    } else {
        ProposalStatus::NoProposal
    }
}

/// Stores a new proposal under `key`, owned by `caller`, with zero counters
/// and no voters, and hands back the record it replaced, if any. A
/// description longer than `MAX_DESCRIPTION_CHARS` is refused.
pub fn create_proposal(
    store: &mut ProposalStore,
    caller: Credential,
    key: u64,
    proposal: CreateProposal,
) -> (r: Result<Option<Proposal>, VoteError>)
    requires
        old(store).wf(),
    ensures
        final(store).wf(),
        proposal.description@.len() > MAX_DESCRIPTION_CHARS ==> r == Err::<Option<Proposal>, VoteError>(
            VoteError::DescriptionTooLong,
        ) && final(store)@ == old(store)@,
        proposal.description@.len() <= MAX_DESCRIPTION_CHARS ==> {
            &&& final(store)@ == created(
                old(store)@,
                key,
                proposal.description@,
                proposal.is_active,
                caller@,
            )
            &&& match r {
                Ok(Some(q)) => old(store)@.contains_key(key) && q@ == old(store)@[key],
                Ok(None) => !old(store)@.contains_key(key),
                Err(_) => false,
            }
        },
{
    if proposal.description.as_str().unicode_len() > MAX_DESCRIPTION_CHARS {
        return Err(VoteError::DescriptionTooLong);
    }
    let value = Proposal {
        description: proposal.description,
        approve: 0u32,
        reject: 0u32,
        pass: 0u32,
        is_active: proposal.is_active,
        voted: Vec::new(),
        owner: caller,
    };
    assert(value@.voted =~= Seq::<Seq<u8>>::empty());
    let r = store.insert(key, value);
    Ok(r)
}

/// Lets the owner of the proposal under `key` replace its description and
/// activity; counters and voters stay as they were.
pub fn edit_proposal(
    store: &mut ProposalStore,
    caller: &Credential,
    key: u64,
    proposal: CreateProposal,
) -> (r: Result<(), VoteError>)
    requires
        old(store).wf(),
    ensures
        final(store).wf(),
        !old(store)@.contains_key(key) ==> r == Err::<(), VoteError>(VoteError::NoProposal)
            && final(store)@ == old(store)@,
        old(store)@.contains_key(key) && old(store)@[key].owner != caller@ ==> r == Err::<
            (),
            VoteError,
        >(VoteError::Unauthorized) && final(store)@ == old(store)@,
        old(store)@.contains_key(key) && old(store)@[key].owner == caller@
            && proposal.description@.len() > MAX_DESCRIPTION_CHARS ==> r == Err::<(), VoteError>(
            VoteError::DescriptionTooLong,
        ) && final(store)@ == old(store)@,
        old(store)@.contains_key(key) && old(store)@[key].owner == caller@
            && proposal.description@.len() <= MAX_DESCRIPTION_CHARS ==> r == Ok::<(), VoteError>(())
            && final(store)@ == old(store)@.insert(
            key,
            edited(old(store)@[key], proposal.description@, proposal.is_active),
        ),
{
    let old_proposal = match store.get(key) {
        Some(value) => value.duplicate(),
        None => return Err(VoteError::NoProposal),
    };
    if !caller.same_as(&old_proposal.owner) {
        return Err(VoteError::Unauthorized);
    }
    if proposal.description.as_str().unicode_len() > MAX_DESCRIPTION_CHARS {
        return Err(VoteError::DescriptionTooLong);
    }
    let value = Proposal {
        description: proposal.description,
        approve: old_proposal.approve,
        reject: old_proposal.reject,
        pass: old_proposal.pass,
        is_active: proposal.is_active,
        voted: old_proposal.voted,
        owner: caller.duplicate(),
    };
    let res = store.insert(key, value);
    match res {
        Some(_) => Ok(()),
        None => Err(VoteError::UpdateError),
    }
}

/// Lets the owner of the proposal under `key` close it to further votes.
/// Ending an ended proposal changes nothing. An unknown `key` is reported as
/// `NoProposal`.
pub fn end_proposal(store: &mut ProposalStore, caller: &Credential, key: u64) -> (r: Result<
    (),
    VoteError,
>)
    requires
        old(store).wf(),
    ensures
        final(store).wf(),
        !old(store)@.contains_key(key) ==> r == Err::<(), VoteError>(VoteError::NoProposal)
            && final(store)@ == old(store)@,
        old(store)@.contains_key(key) && old(store)@[key].owner != caller@ ==> r == Err::<
            (),
            VoteError,
        >(VoteError::Unauthorized) && final(store)@ == old(store)@,
        old(store)@.contains_key(key) && old(store)@[key].owner == caller@ ==> r == Ok::<
            (),
            VoteError,
        >(()) && final(store)@ == old(store)@.insert(key, ended(old(store)@[key])),
{
    let mut proposal = match store.get(key) {
        Some(value) => value.duplicate(),
        None => return Err(VoteError::NoProposal),
    };
    if !caller.same_as(&proposal.owner) {
        return Err(VoteError::Unauthorized);
    }
    proposal.is_active = false;
    let res = store.insert(key, proposal);
    match res {
        Some(_) => Ok(()),
        None => Err(VoteError::UpdateError),
    }
}

/// Casts `caller`'s vote on the proposal under `key`. A repeat voter is told
/// `AlreadyVoted` before an inactive proposal is reported; a counter that
/// cannot grow any further is reported as `VoteFailed`. An unknown `key` is
/// reported as `NoProposal`.
pub fn vote(store: &mut ProposalStore, caller: Credential, key: u64, choice: VoteTypes) -> (r:
    Result<(), VoteError>)
    requires
        old(store).wf(),
    ensures
        final(store).wf(),
        !old(store)@.contains_key(key) ==> r == Err::<(), VoteError>(VoteError::NoProposal)
            && final(store)@ == old(store)@,
        old(store)@.contains_key(key) && old(store)@[key].has_voted(caller@) ==> r == Err::<
            (),
            VoteError,
        >(VoteError::AlreadyVoted) && final(store)@ == old(store)@,
        old(store)@.contains_key(key) && !old(store)@[key].has_voted(caller@)
            && !old(store)@[key].is_active ==> r == Err::<(), VoteError>(
            VoteError::ProposalNotActive,
        ) && final(store)@ == old(store)@,
        old(store)@.contains_key(key) && !old(store)@[key].has_voted(caller@)
            && old(store)@[key].is_active && counter_for(old(store)@[key], choice) >= u32::MAX ==> r
            == Err::<(), VoteError>(VoteError::VoteFailed) && final(store)@ == old(store)@,
        old(store)@.contains_key(key) && !old(store)@[key].has_voted(caller@)
            && old(store)@[key].is_active && counter_for(old(store)@[key], choice) < u32::MAX ==> r
            == Ok::<(), VoteError>(()) && final(store)@ == old(store)@.insert(
            key,
            with_vote(old(store)@[key], choice, caller@),
        ),
{
    let mut proposal = match store.get(key) {
        Some(value) => value.duplicate(),
        None => return Err(VoteError::NoProposal),
    };
    let ghost before = proposal@;
    if contains_voter(&proposal.voted, &caller) {
        return Err(VoteError::AlreadyVoted);
    } else if !proposal.is_active {
        return Err(VoteError::ProposalNotActive);
    }
    match choice {
        VoteTypes::Approve => {
            if proposal.approve == u32::MAX {
                return Err(VoteError::VoteFailed);
            }
            proposal.approve = proposal.approve + 1;
        },
        VoteTypes::Reject => {
            if proposal.reject == u32::MAX {
                return Err(VoteError::VoteFailed);
            }
            proposal.reject = proposal.reject + 1;
        },
        VoteTypes::Pass => {
            if proposal.pass == u32::MAX {
                return Err(VoteError::VoteFailed);
            }
            proposal.pass = proposal.pass + 1;
        },
    }
    let ghost voter = caller@;
    proposal.voted.push(caller);
    proof {
        assert(proposal@.voted =~= before.voted.push(voter));
        assert(proposal@ == with_vote(before, choice, voter));
        lemma_vote_keeps_tally(before, choice, voter);
    }
    let res = store.insert(key, proposal);
    match res {
        Some(_) => Ok(()),
        None => Err(VoteError::VoteFailed),
    }
}

/// A copy of the record stored under `key`, if any.
pub fn get_proposal(store: &ProposalStore, key: u64) -> (r: Option<Proposal>)
    ensures
        match r {
            Some(p) => store@.contains_key(key) && p@ == store@[key],
            None => !store@.contains_key(key),
        },
{
    match store.get(key) {
        Some(p) => Some(p.duplicate()),
        None => None,
    }
}

/// How many proposals are stored.
pub fn get_proposal_count(store: &ProposalStore) -> (r: u64)
    ensures
        r == store@.len(),
{
    store.len()
}

/// The decision for the proposal under `key`.
pub fn proposal_status(store: &ProposalStore, key: u64) -> (r: ProposalStatus)
    ensures
        r == status_at(store@, key),
{
    match store.get(key) {
        Some(p) => tally_status(p.approve, p.reject, p.pass),
        None => ProposalStatus::NoProposal,
    }
}

/// The label of the decision for the proposal under `key`.
pub fn get_proposal_status(store: &ProposalStore, key: u64) -> (r: String)
    ensures
        r@ == status_at(store@, key).label_spec(),
{
    proposal_status(store, key).label()
}

/// A vote by someone who has not voted yet keeps the counters in step with
/// the voters, and nobody is recorded twice.
pub proof fn lemma_vote_keeps_tally(p: ProposalView, choice: VoteTypes, voter: Seq<u8>)
    requires
        p.wf(),
        !p.has_voted(voter),
    ensures
        with_vote(p, choice, voter).wf(),
        with_vote(p, choice, voter).total() == p.total() + 1,
        with_vote(p, choice, voter).has_voted(voter),
{
    let q = with_vote(p, choice, voter);
    assert(q.voted.last() == voter);
    assert forall|i: int, j: int|
        0 <= i < q.voted.len() && 0 <= j < q.voted.len() && i != j implies q.voted[i]
        != q.voted[j] by {
        if i < p.voted.len() && j < p.voted.len() {
            assert(q.voted[i] == p.voted[i]);
            assert(q.voted[j] == p.voted[j]);
        } else if i < p.voted.len() {
            assert(q.voted[i] == p.voted[i]);
            assert(p.voted.contains(p.voted[i]));
        } else {
            assert(q.voted[j] == p.voted[j]);
            assert(p.voted.contains(p.voted[j]));
        }
    }
}

/// Reading a proposal right after creating it gives the caller's description
/// and activity, zero counters, nobody among the voters, and the caller as
/// owner.
pub proof fn lemma_create_then_get(
    before: Map<u64, ProposalView>,
    key: u64,
    description: Seq<char>,
    is_active: bool,
    caller: Seq<u8>,
)
    ensures
        ({
            let after = created(before, key, description, is_active, caller);
            &&& after.contains_key(key)
            &&& after[key].description == description
            &&& after[key].is_active == is_active
            &&& after[key].approve == 0 && after[key].reject == 0 && after[key].pass == 0
            &&& after[key].voted.len() == 0
            &&& after[key].owner == caller
            &&& after[key].wf()
        }),
{
}

/// Once `voter` has voted successfully on the proposal under `key`, the
/// record there lists them as a voter, so a second vote by them on it is
/// refused as `AlreadyVoted` and leaves the store as it was.
pub proof fn lemma_second_vote_refused(
    before: Map<u64, ProposalView>,
    key: u64,
    choice: VoteTypes,
    voter: Seq<u8>,
)
    requires
        before.contains_key(key),
    ensures
        ({
            let after = before.insert(key, with_vote(before[key], choice, voter));
            &&& after.contains_key(key)
            &&& after[key].has_voted(voter)
        }),
{
    let q = with_vote(before[key], choice, voter);
    assert(q.voted[q.voted.len() - 1] == voter);
}

/// The record after each ballot, a choice and a voter, is cast in turn.
pub open spec fn cast_all(p: ProposalView, ballots: Seq<(VoteTypes, Seq<u8>)>) -> ProposalView
    decreases ballots.len(),
{
    if ballots.len() == 0 {
        p
    } else {
        let b = ballots.last();
        with_vote(cast_all(p, ballots.drop_last()), b.0, b.1)
    }
}

/// Every ballot comes from someone who had not voted by then: each vote of
/// the sequence succeeds.
pub open spec fn all_accepted(p: ProposalView, ballots: Seq<(VoteTypes, Seq<u8>)>) -> bool {
    forall|i: int|
        0 <= i < ballots.len() ==> !#[trigger] cast_all(p, ballots.take(i)).has_voted(ballots[i].1)
}

/// Along any sequence of successful votes the three counters add up to the
/// number of voters after every single vote, and nobody is listed twice.
pub proof fn lemma_votes_keep_tally(p: ProposalView, ballots: Seq<(VoteTypes, Seq<u8>)>)
    requires
        p.wf(),
        all_accepted(p, ballots),
    ensures
        forall|i: int|
            0 <= i <= ballots.len() ==> #[trigger] cast_all(p, ballots.take(i)).wf()
                && cast_all(p, ballots.take(i)).total() == p.total() + i,
    decreases ballots.len(),
{
    if ballots.len() > 0 {
        let rest = ballots.drop_last();
        assert forall|i: int| 0 <= i < rest.len() implies !#[trigger] cast_all(
            p,
            rest.take(i),
        ).has_voted(rest[i].1) by {
            assert(rest.take(i) =~= ballots.take(i));
            assert(rest[i] == ballots[i]);
        }
        lemma_votes_keep_tally(p, rest);
        let n = ballots.len() as int;
        assert(ballots.take(n) =~= ballots);
        assert(ballots.take(n - 1) =~= rest);
        assert(rest.take(n - 1) =~= rest);
        assert(cast_all(p, rest).wf());
        assert(!cast_all(p, ballots.take(n - 1)).has_voted(ballots[n - 1].1));
        lemma_vote_keeps_tally(cast_all(p, rest), ballots.last().0, ballots.last().1);
        assert forall|i: int| 0 <= i <= ballots.len() implies #[trigger] cast_all(
            p,
            ballots.take(i),
        ).wf() && cast_all(p, ballots.take(i)).total() == p.total() + i by {
            if i < n {
                assert(rest.take(i) =~= ballots.take(i));
            }
        }
    } else {
        assert forall|i: int| 0 <= i <= ballots.len() implies #[trigger] cast_all(
            p,
            ballots.take(i),
        ).wf() && cast_all(p, ballots.take(i)).total() == p.total() + i by {
            assert(ballots.take(i) =~= ballots);
        }
    }
}

} // verus!
