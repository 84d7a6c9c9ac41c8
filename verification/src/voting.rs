//! Casting votes.

use vstd::prelude::*;

use crate::math::{checked_add, fits_i128, floor_sqrt, isqrt};
use crate::proposals::{check_replacement, get_proposal, put_proposal};
use crate::state::{Governance, GovernanceModel};
use crate::types::{
    Address, Event, EventModel, GovernanceError, Proposal, ProposalModel, ProposalStatus, Vote,
    VoteType,
};

verus! {

impl ProposalModel {
    /// Whether the proposal can still be voted on or finalized.
    pub open spec fn is_open(self) -> bool {
        self.status == ProposalStatus::Pending || self.status == ProposalStatus::Active
    }

    /// The votes of a kind that were counted so far.
    pub open spec fn tally(self, kind: VoteType) -> i128 {
        match kind {
            VoteType::For => self.votes_for,
            VoteType::Against => self.votes_against,
            VoteType::Abstain => self.votes_abstain,
        }
    }

    /// The weight that a recorded power has in a vote on this proposal.
    pub open spec fn weight(self, power: i128) -> i128 {
        if self.use_quadratic_voting {
            floor_sqrt(power as int) as i128
        } else {
            power
        }
    }

    /// The proposal with one more vote, which makes it active.
    pub open spec fn with_vote(self, vote: Vote) -> ProposalModel {
        let sum = (self.tally(vote.vote_type) + vote.voting_power) as i128;
        ProposalModel {
            voters: self.voters.insert(vote.voter, vote),
            voter_list: self.voter_list.push(vote.voter),
            votes_for: if vote.vote_type == VoteType::For {
                sum
            } else {
                self.votes_for
            },
            votes_against: if vote.vote_type == VoteType::Against {
                sum
            } else {
                self.votes_against
            },
            votes_abstain: if vote.vote_type == VoteType::Abstain {
                sum
            } else {
                self.votes_abstain
            },
            status: ProposalStatus::Active,
            ..self
        }
    }
}

impl GovernanceModel {
    /// The power on record for `voter` in votes on a proposal, zero where there is none.
    pub open spec fn recorded_power(self, id: u64, voter: Address) -> i128 {
        if self.snapshots.contains_key(id) && self.snapshots[id].contains_key(voter) {
            self.snapshots[id][voter]
        } else {
            0
        }
    }

    /// The vote that `voter` casts.
    pub open spec fn ballot(self, now: u64, id: u64, voter: Address, kind: VoteType) -> Vote {
        Vote {
            voter,
            vote_type: kind,
            voting_power: self.proposals[id].weight(self.recorded_power(id, voter)),
            timestamp: now,
        }
    }

    /// Why a vote is refused, if there is a reason.
    pub open spec fn vote_refusal(
        self,
        now: u64,
        id: u64,
        voter: Address,
        kind: VoteType,
    ) -> Option<GovernanceError> {
        let p = self.proposals[id];
        if !self.proposals.contains_key(id) {
            Some(GovernanceError::ProposalNotFound)
        } else if now < p.discussion_ends_at {
            Some(GovernanceError::DiscussionPeriodActive)
        } else if now < p.voting_starts {
            Some(GovernanceError::VotingNotStarted)
        } else if now >= p.voting_ends {
            Some(GovernanceError::VotingEnded)
        } else if !p.is_open() {
            Some(GovernanceError::ProposalNotActive)
        } else if p.voters.contains_key(voter) {
            Some(GovernanceError::AlreadyVoted)
        } else if self.recorded_power(id, voter) <= 0 {
            Some(GovernanceError::NoVotingPower)
        } else if !fits_i128(p.tally(kind) + p.weight(self.recorded_power(id, voter))) {
            Some(GovernanceError::ArithmeticOverflow)
        } else {
            self.replacement_refusal(p.id)
        }
    }

    /// The state after a vote was cast, accepted or not.
    pub open spec fn after_vote(self, now: u64, id: u64, voter: Address, kind: VoteType) -> GovernanceModel {
        if self.vote_refusal(now, id, voter, kind) is Some {
            self.demanding(voter)
        } else {
            self.demanding(voter).voted(now, id, self.ballot(now, id, voter, kind))
        }
    }

    /// The state once a vote was counted. The first vote after a discussion is announced.
    pub open spec fn voted(self, now: u64, id: u64, vote: Vote) -> GovernanceModel {
        let p = self.proposals[id];
        let counted = self.storing(p.with_vote(vote));
        if p.discussion_ends_at > 0 && p.voter_list.len() == 0 {
            counted.announcing(
                EventModel::DiscussionEnded { id, discussion_ends_at: p.discussion_ends_at, now },
            )
        } else {
            counted
        }
    }
}

/// The power on record for `voter` in votes on a proposal, if any.
pub fn get_vote_snapshot(gov: &Governance, proposal_id: u64, voter: Address) -> (power: Option<i128>)
    ensures
        power == if gov@.snapshots.contains_key(proposal_id)
            && gov@.snapshots[proposal_id].contains_key(voter) {
            Some(gov@.snapshots[proposal_id][voter])
        } else {
            None
        },
{
    match gov.snapshots.get(&proposal_id) {
        Some(snapshot) => snapshot.get(voter),
        None => None,
    }
}

/// What a vote of `voter` weighs, given the power on record.
fn vote_weight(proposal: &Proposal, power: i128) -> (weight: i128)
    ensures
        weight == proposal@.weight(power),
{
    if proposal.use_quadratic_voting {
        isqrt(power)
    } else {
        power
    }
}

/// The votes of a kind that were counted so far.
fn votes_of_kind(proposal: &Proposal, kind: VoteType) -> (votes: i128)
    ensures
        votes == proposal@.tally(kind),
{
    match kind {
        VoteType::For => proposal.votes_for,
        VoteType::Against => proposal.votes_against,
        VoteType::Abstain => proposal.votes_abstain,
    }
}

/// Whether a vote would be accepted.
pub fn check_vote(
    gov: &Governance,
    now: u64,
    proposal_id: u64,
    voter: Address,
    vote_type: VoteType,
) -> (result: Result<(), GovernanceError>)
    ensures
        result == match gov@.vote_refusal(now, proposal_id, voter, vote_type) {
            Some(e) => Err(e),
            None => Ok(()),
        },
{
    let proposal: &Proposal = match gov.proposals.proposals.get(&proposal_id) {
        Some(proposal) => proposal,
        None => {
            return Err(GovernanceError::ProposalNotFound);
        },
    };
    if proposal.discussion_ends_at > 0 && now < proposal.discussion_ends_at {
        return Err(GovernanceError::DiscussionPeriodActive);
    }
    if now < proposal.voting_starts {
        return Err(GovernanceError::VotingNotStarted);
    }
    if now >= proposal.voting_ends {
        return Err(GovernanceError::VotingEnded);
    }
    if proposal.status != ProposalStatus::Pending && proposal.status != ProposalStatus::Active {
        return Err(GovernanceError::ProposalNotActive);
    }
    if proposal.voters.contains_key(voter) {
        return Err(GovernanceError::AlreadyVoted);
    }
    let power: i128 = recorded_power_of(gov, proposal_id, voter);
    if power <= 0 {
        return Err(GovernanceError::NoVotingPower);
    }
    if let Err(e) = checked_add(votes_of_kind(proposal, vote_type), vote_weight(proposal, power)) {
        return Err(e);
    }
    check_replacement(gov, proposal.id)
}

/// The power on record for `voter` in votes on a proposal, zero where there is none.
fn recorded_power_of(gov: &Governance, proposal_id: u64, voter: Address) -> (power: i128)
    ensures
        power == gov@.recorded_power(proposal_id, voter),
{
    match get_vote_snapshot(gov, proposal_id, voter) {
        Some(power) => power,
        None => 0,
    }
}

/// Casts a vote. It weighs the power that was on record for the voter when the proposal was
/// created, or the floor of its square root where voting is quadratic.
pub fn cast_vote(
    gov: &mut Governance,
    now: u64,
    proposal_id: u64,
    voter: Address,
    vote_type: VoteType,
) -> (result: Result<(), GovernanceError>)
    requires
        old(gov)@.vote_refusal(now, proposal_id, voter, vote_type) is None ==> old(
            gov,
        )@.proposals[proposal_id].voter_list.len() < u32::MAX,
    ensures
        final(gov)@ == old(gov)@.after_vote(now, proposal_id, voter, vote_type),
        result == match old(gov)@.vote_refusal(now, proposal_id, voter, vote_type) {
            Some(e) => Err(e),
            None => Ok(()),
        },
{
    gov.demand_auth(voter);
    if let Err(e) = check_vote(gov, now, proposal_id, voter, vote_type) {
        return Err(e);
    }
    let mut proposal: Proposal = match get_proposal(gov, proposal_id) {
        Ok(proposal) => proposal,
        Err(e) => {
            return Err(e);
        },
    };
    let first_after_discussion: bool = proposal.discussion_ends_at > 0
        && proposal.voter_list.is_empty();
    let power: i128 = vote_weight(&proposal, recorded_power_of(gov, proposal_id, voter));
    let sum: i128 = votes_of_kind(&proposal, vote_type) + power;
    match vote_type {
        VoteType::For => {
            proposal.votes_for = sum;
        },
        VoteType::Against => {
            proposal.votes_against = sum;
        },
        VoteType::Abstain => {
            proposal.votes_abstain = sum;
        },
    }
    proposal.voters.set(
        voter,
        Vote { voter, vote_type, voting_power: power, timestamp: now },
    );
    proposal.voter_list.push_back(voter);
    proposal.status = ProposalStatus::Active;
    if let Err(e) = put_proposal(gov, &proposal) {
        return Err(e);
    }
    if first_after_discussion {
        gov.announce(
            Event::DiscussionEnded {
                id: proposal_id,
                discussion_ends_at: proposal.discussion_ends_at,
                now,
            },
        );
    }
    Ok(())
}

} // verus!
