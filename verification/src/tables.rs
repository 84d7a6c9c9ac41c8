//! The tables of governance that the host holds: thresholds, delegations and votes.
//!
//! The host takes a record as the tuple of its fields. Each table gives the records back.

use soroban_sdk::Env;
use vstd::prelude::*;

use crate::collections::{
    ballot_entries, ballots_clone, ballots_contains_key, ballots_get, ballots_new, ballots_set,
    delegation_entries, delegations_get, delegations_new, delegations_set, threshold_entries,
    thresholds_get, thresholds_new, thresholds_set,
};
use crate::types::{Address, CategoryThreshold, Vote, VoteDelegation, VoteType};

verus! {

/// The thresholds with the given fields.
spec fn threshold_of(fields: (u32, u32)) -> CategoryThreshold {
    CategoryThreshold { quorum_bps: fields.0, supermajority_bps: fields.1 }
}

/// The delegation with the given fields.
spec fn delegation_of(fields: (u64, u64, i128, bool)) -> VoteDelegation {
    VoteDelegation {
        delegator: fields.0,
        delegate: fields.1,
        delegated_power: fields.2,
        active: fields.3,
    }
}

/// The kind of vote that a number stands for.
spec fn vote_type_of(number: u32) -> VoteType {
    if number == 0 {
        VoteType::For
    } else if number == 1 {
        VoteType::Against
    } else {
        VoteType::Abstain
    }
}

/// The vote with the given fields.
spec fn vote_of(fields: (u64, u32, i128, u64)) -> Vote {
    Vote {
        voter: fields.0,
        vote_type: vote_type_of(fields.1),
        voting_power: fields.2,
        timestamp: fields.3,
    }
}

/// Thresholds, by category key.
#[derive(Debug, PartialEq, Eq)]
pub struct Thresholds {
    entries: soroban_sdk::Map<u32, (u32, u32)>,
}

impl View for Thresholds {
    type V = Map<u32, CategoryThreshold>;

    closed spec fn view(&self) -> Map<u32, CategoryThreshold> {
        threshold_entries(self.entries).map_values(|t: (u32, u32)| threshold_of(t))
    }
}

impl Thresholds {
    /// No thresholds.
    pub fn new(env: &Env) -> (table: Thresholds)
        ensures
            table@ == Map::<u32, CategoryThreshold>::empty(),
    {
        let table = Thresholds { entries: thresholds_new(env) };
        assert(table@ =~= Map::<u32, CategoryThreshold>::empty());
        table
    }

    /// The thresholds under `key`, or `None` where there are none.
    pub fn get(&self, key: u32) -> (threshold: Option<CategoryThreshold>)
        ensures
            threshold == if self@.contains_key(key) {
                Some(self@[key])
            } else {
                None
            },
    {
        match thresholds_get(&self.entries, key) {
            Some(fields) => Some(
                CategoryThreshold { quorum_bps: fields.0, supermajority_bps: fields.1 },
            ),
            None => None,
        }
    }

    /// Puts `threshold` under `key`, in place of what was there.
    pub fn set(&mut self, key: u32, threshold: CategoryThreshold)
        ensures
            final(self)@ == old(self)@.insert(key, threshold),
    {
        thresholds_set(
            &mut self.entries,
            key,
            (threshold.quorum_bps, threshold.supermajority_bps),
        );
        assert(final(self)@ =~= old(self)@.insert(key, threshold));
    }
}

/// Delegations, by delegator.
#[derive(Debug, PartialEq, Eq)]
pub struct Delegations {
    entries: soroban_sdk::Map<u64, (u64, u64, i128, bool)>,
}

impl View for Delegations {
    type V = Map<Address, VoteDelegation>;

    closed spec fn view(&self) -> Map<Address, VoteDelegation> {
        delegation_entries(self.entries).map_values(
            |d: (u64, u64, i128, bool)| delegation_of(d),
        )
    }
}

impl Delegations {
    /// No delegations.
    pub fn new(env: &Env) -> (table: Delegations)
        ensures
            table@ == Map::<Address, VoteDelegation>::empty(),
    {
        let table = Delegations { entries: delegations_new(env) };
        assert(table@ =~= Map::<Address, VoteDelegation>::empty());
        table
    }

    /// The delegation under `account`, or `None` where there is none.
    pub fn get(&self, account: Address) -> (delegation: Option<VoteDelegation>)
        ensures
            delegation == if self@.contains_key(account) {
                Some(self@[account])
            } else {
                None
            },
    {
        match delegations_get(&self.entries, account) {
            Some(fields) => Some(
                VoteDelegation {
                    delegator: fields.0,
                    delegate: fields.1,
                    delegated_power: fields.2,
                    active: fields.3,
                },
            ),
            None => None,
        }
    }

    /// Puts `delegation` under `account`, in place of what was there.
    pub fn set(&mut self, account: Address, delegation: VoteDelegation)
        ensures
            final(self)@ == old(self)@.insert(account, delegation),
    {
        delegations_set(
            &mut self.entries,
            account,
            (
                delegation.delegator,
                delegation.delegate,
                delegation.delegated_power,
                delegation.active,
            ),
        );
        assert(final(self)@ =~= old(self)@.insert(account, delegation));
    }
}

/// Votes, by voter.
#[derive(Debug, PartialEq, Eq)]
pub struct Ballots {
    entries: soroban_sdk::Map<u64, (u64, u32, i128, u64)>,
}

impl View for Ballots {
    type V = Map<Address, Vote>;

    closed spec fn view(&self) -> Map<Address, Vote> {
        ballot_entries(self.entries).map_values(|v: (u64, u32, i128, u64)| vote_of(v))
    }
}

impl Clone for Ballots {
    fn clone(&self) -> (copy: Self)
        ensures
            copy@ == self@,
    {
        Ballots { entries: ballots_clone(&self.entries) }
    }
}

impl Ballots {
    /// No votes.
    pub fn new(env: &Env) -> (table: Ballots)
        ensures
            table@ == Map::<Address, Vote>::empty(),
    {
        let table = Ballots { entries: ballots_new(env) };
        assert(table@ =~= Map::<Address, Vote>::empty());
        table
    }

    /// Whether there is a vote of `voter`.
    pub fn contains_key(&self, voter: Address) -> (found: bool)
        ensures
            found == self@.contains_key(voter),
    {
        ballots_contains_key(&self.entries, voter)
    }

    /// The vote of `voter`, or `None` where there is none.
    pub fn get(&self, voter: Address) -> (vote: Option<Vote>)
        ensures
            vote == if self@.contains_key(voter) {
                Some(self@[voter])
            } else {
                None
            },
    {
        match ballots_get(&self.entries, voter) {
            Some(fields) => {
                let vote_type: VoteType = if fields.1 == 0 {
                    VoteType::For
                } else if fields.1 == 1 {
                    VoteType::Against
                } else {
                    VoteType::Abstain
                };
                Some(
                    Vote {
                        voter: fields.0,
                        vote_type,
                        voting_power: fields.2,
                        timestamp: fields.3,
                    },
                )
            },
            None => None,
        }
    }

    /// Puts `vote` under `voter`, in place of what was there.
    pub fn set(&mut self, voter: Address, vote: Vote)
        ensures
            final(self)@ == old(self)@.insert(voter, vote),
    {
        let number: u32 = match vote.vote_type {
            VoteType::For => 0,
            VoteType::Against => 1,
            VoteType::Abstain => 2,
        };
        ballots_set(
            &mut self.entries,
            voter,
            (vote.voter, number, vote.voting_power, vote.timestamp),
        );
        assert(final(self)@ =~= old(self)@.insert(voter, vote));
    }
}

} // verus!
