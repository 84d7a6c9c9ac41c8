//! The records of governance, and the mathematical models that contracts speak of.

use std::collections::BTreeMap;

use vstd::prelude::*;

use crate::bytes::ByteString;
use crate::collections::IdList;
use crate::tables::{Ballots, Delegations};

verus! {

/// An account, by its number in the caller's table of addresses.
pub type Address = u64;

/// A treasury asset, by its number in the caller's table of assets.
pub type Asset = u64;

/// Why a request was refused.
#[derive(Clone, Copy, Debug, PartialEq, Eq, Structural)]
pub enum GovernanceError {
    NotInitialized,
    Unauthorized,
    ArithmeticOverflow,
    InvalidSupply,
    InsufficientBalance,
    BudgetExceeded,
    InvalidGovernanceConfig,
    InvalidProposal,
    InvalidDuration,
    NoVotingPower,
    ProposalNotFound,
    DiscussionPeriodActive,
    VotingNotStarted,
    VotingEnded,
    ProposalNotActive,
    AlreadyVoted,
    ProposalNotApproved,
    ProposalAlreadyWithdrawn,
    InvalidCommitteeAction,
    CrossCommitteeRequestNotFound,
}

/// What a proposal is about. Each category can have thresholds of its own.
#[derive(Clone, Copy, Debug, PartialEq, Eq, Structural)]
pub enum ProposalCategory {
    /// Low-risk adjustments of the configuration, such as a fee rate.
    ParameterChange,
    /// New code for a contract.
    ContractUpgrade,
    /// Transfers out of the treasury.
    TreasuryTransfer,
    /// Everything else.
    General,
}

/// Thresholds of a category, in basis points. Zero stands for the global threshold.
#[derive(Clone, Copy, Debug, PartialEq, Eq, Structural)]
pub struct CategoryThreshold {
    /// The share of the total supply that has to take part.
    pub quorum_bps: u32,
    /// The share of the votes for and against that has to be for.
    pub supermajority_bps: u32,
}

/// What is carried out when a proposal succeeds.
#[derive(Debug, PartialEq, Eq)]
pub enum ProposalType {
    /// A parameter, its current value and its proposed value.
    ParameterChange(ByteString, i128, i128),
    /// A recipient, an amount, the asset it is paid in and the purpose.
    TreasurySpend(Address, i128, Asset, ByteString),
    /// A feature, and whether it is to be on.
    FeatureToggle(ByteString, bool),
    /// A contract and the hash of its new code.
    ContractUpgrade(ByteString, ByteString),
    /// A statement without effect.
    SignalProposal(ByteString),
    /// An action that the given account carries out.
    Custom(Address),
}

/// The model of a `ProposalType`.
#[verifier::ext_equal]
pub enum ActionModel {
    ParameterChange(Seq<u8>, i128, i128),
    TreasurySpend(Address, i128, Asset, Seq<u8>),
    FeatureToggle(Seq<u8>, bool),
    ContractUpgrade(Seq<u8>, Seq<u8>),
    SignalProposal(Seq<u8>),
    Custom(Address),
}

impl View for ProposalType {
    type V = ActionModel;

    open spec fn view(&self) -> ActionModel {
        match self {
            ProposalType::ParameterChange(name, current, proposed) => ActionModel::ParameterChange(
                name@,
                *current,
                *proposed,
            ),
            ProposalType::TreasurySpend(
                recipient,
                amount,
                asset,
                purpose,
            ) => ActionModel::TreasurySpend(*recipient, *amount, *asset, purpose@),
            ProposalType::FeatureToggle(name, enabled) => ActionModel::FeatureToggle(
                name@,
                *enabled,
            ),
            ProposalType::ContractUpgrade(name, hash) => ActionModel::ContractUpgrade(name@, hash@),
            ProposalType::SignalProposal(text) => ActionModel::SignalProposal(text@),
            ProposalType::Custom(executor) => ActionModel::Custom(*executor),
        }
    }
}

impl Clone for ProposalType {
    fn clone(&self) -> (copy: Self)
        ensures
            copy@ == self@,
    {
        match self {
            ProposalType::ParameterChange(name, current, proposed) => ProposalType::ParameterChange(
                name.clone(),
                *current,
                *proposed,
            ),
            ProposalType::TreasurySpend(
                recipient,
                amount,
                asset,
                purpose,
            ) => ProposalType::TreasurySpend(*recipient, *amount, *asset, purpose.clone()),
            ProposalType::FeatureToggle(name, enabled) => ProposalType::FeatureToggle(
                name.clone(),
                *enabled,
            ),
            ProposalType::ContractUpgrade(name, hash) => ProposalType::ContractUpgrade(
                name.clone(),
                hash.clone(),
            ),
            ProposalType::SignalProposal(text) => ProposalType::SignalProposal(text.clone()),
            ProposalType::Custom(executor) => ProposalType::Custom(*executor),
        }
    }
}

/// Where a proposal stands.
#[derive(Clone, Copy, Debug, PartialEq, Eq, Structural)]
pub enum ProposalStatus {
    /// Created, without a vote so far.
    Pending,
    /// Voted on at least once.
    Active,
    /// Finalized with quorum and approval.
    Succeeded,
    /// Finalized without quorum or without approval.
    Failed,
    /// Carried out.
    Executed,
    /// Called off by the proposer, the admin or the guardian.
    Cancelled,
    /// Past its time.
    Expired,
    /// Taken back by the proposer before the first vote. Nothing changes a proposal in this status
    /// any more.
    Withdrawn,
}

/// How a vote counts.
#[derive(Clone, Copy, Debug, PartialEq, Eq, Structural)]
pub enum VoteType {
    For,
    Against,
    Abstain,
}

/// A vote that was cast.
#[derive(Clone, Copy, Debug, PartialEq, Eq, Structural)]
pub struct Vote {
    pub voter: Address,
    pub vote_type: VoteType,
    pub voting_power: i128,
    pub timestamp: u64,
}

/// A proposal with its votes.
#[derive(Debug, PartialEq, Eq)]
pub struct Proposal {
    pub id: u64,
    pub proposer: Address,
    pub proposal_type: ProposalType,
    pub title: ByteString,
    pub description: ByteString,
    pub execution_payload: ByteString,
    pub voting_starts: u64,
    pub voting_ends: u64,
    pub votes_for: i128,
    pub votes_against: i128,
    pub votes_abstain: i128,
    pub status: ProposalStatus,
    pub voters: Ballots,
    pub voter_list: IdList,
    pub executed_at: Option<u64>,
    /// The time from which votes are accepted; zero where there is no discussion window.
    pub discussion_ends_at: u64,
    /// Selects the thresholds.
    pub category: ProposalCategory,
    /// Whether a vote weighs the floor of the square root of the voter's power.
    pub use_quadratic_voting: bool,
    /// The sum of the quadratic weights of all holders when the proposal was created.
    pub quadratic_total_supply: i128,
}

/// The model of a `Proposal`.
#[verifier::ext_equal]
pub struct ProposalModel {
    pub id: u64,
    pub proposer: Address,
    pub action: ActionModel,
    pub title: Seq<u8>,
    pub description: Seq<u8>,
    pub execution_payload: Seq<u8>,
    pub voting_starts: u64,
    pub voting_ends: u64,
    pub votes_for: i128,
    pub votes_against: i128,
    pub votes_abstain: i128,
    pub status: ProposalStatus,
    pub voters: Map<Address, Vote>,
    pub voter_list: Seq<Address>,
    pub executed_at: Option<u64>,
    pub discussion_ends_at: u64,
    pub category: ProposalCategory,
    pub use_quadratic_voting: bool,
    pub quadratic_total_supply: i128,
}

impl View for Proposal {
    type V = ProposalModel;

    open spec fn view(&self) -> ProposalModel {
        ProposalModel {
            id: self.id,
            proposer: self.proposer,
            action: self.proposal_type@,
            title: self.title@,
            description: self.description@,
            execution_payload: self.execution_payload@,
            voting_starts: self.voting_starts,
            voting_ends: self.voting_ends,
            votes_for: self.votes_for,
            votes_against: self.votes_against,
            votes_abstain: self.votes_abstain,
            status: self.status,
            voters: self.voters@,
            voter_list: self.voter_list@,
            executed_at: self.executed_at,
            discussion_ends_at: self.discussion_ends_at,
            category: self.category,
            use_quadratic_voting: self.use_quadratic_voting,
            quadratic_total_supply: self.quadratic_total_supply,
        }
    }
}

impl Clone for Proposal {
    fn clone(&self) -> (copy: Self)
        ensures
            copy@ == self@,
    {
        Proposal {
            id: self.id,
            proposer: self.proposer,
            proposal_type: self.proposal_type.clone(),
            title: self.title.clone(),
            description: self.description.clone(),
            execution_payload: self.execution_payload.clone(),
            voting_starts: self.voting_starts,
            voting_ends: self.voting_ends,
            votes_for: self.votes_for,
            votes_against: self.votes_against,
            votes_abstain: self.votes_abstain,
            status: self.status,
            voters: self.voters.clone(),
            voter_list: self.voter_list.clone(),
            executed_at: self.executed_at,
            discussion_ends_at: self.discussion_ends_at,
            category: self.category,
            use_quadratic_voting: self.use_quadratic_voting,
            quadratic_total_supply: self.quadratic_total_supply,
        }
    }
}

/// The global rules of voting. Times are in seconds, thresholds in basis points.
#[derive(Clone, Copy, Debug, PartialEq, Eq, Structural)]
pub struct GovernanceConfig {
    /// The voting power it takes to create a proposal.
    pub min_proposal_threshold: i128,
    pub voting_period: u64,
    pub voting_delay: u64,
    pub quorum_threshold: u32,
    pub approval_threshold: u32,
    pub execution_delay: u64,
    /// How long a proposal is discussed before votes are accepted; zero for no discussion.
    pub discussion_duration: u64,
}

/// Numbers over all proposals. Rates are in basis points.
#[derive(Clone, Copy, Debug, PartialEq, Eq, Structural)]
pub struct ProposalStatistics {
    pub total_proposals: u32,
    pub active_proposals: u32,
    pub succeeded_proposals: u32,
    pub failed_proposals: u32,
    pub executed_proposals: u32,
    pub avg_participation_rate: u32,
    pub avg_approval_rate: u32,
}

/// Voting power that its owner has lent to another account.
#[derive(Clone, Copy, Debug, PartialEq, Eq, Structural)]
pub struct VoteDelegation {
    pub delegator: Address,
    pub delegate: Address,
    pub delegated_power: i128,
    pub active: bool,
}

/// All delegations, by delegator, and the delegators in the order of their first delegation.
#[derive(Debug, PartialEq, Eq)]
pub struct DelegationState {
    pub delegations: Delegations,
    pub delegators: IdList,
}

/// All proposals, by number, and their numbers in the order of creation.
///
/// The host could hold a record with lists and tables inside only by conversions that the SDK
/// derives for it; the caller makes those when it loads and stores the state.
#[derive(Debug, PartialEq, Eq)]
pub struct ProposalsState {
    pub proposals: BTreeMap<u64, Proposal>,
    pub proposal_ids: IdList,
    pub next_proposal_id: u64,
}

/// An announcement to the outside world.
#[derive(Debug, PartialEq, Eq)]
pub enum Event {
    /// A proposal was created.
    ProposalCreated {
        id: u64,
        proposer: Address,
        discussion_ends_at: u64,
        voting_starts: u64,
        voting_ends: u64,
    },
    /// The first vote after the discussion of a proposal was accepted.
    DiscussionEnded { id: u64, discussion_ends_at: u64, now: u64 },
    /// An upgrade was approved, and can be carried out from the given time on.
    UpgradeAnnounced {
        contract: ByteString,
        new_hash: ByteString,
        available_after: u64,
        payload: ByteString,
    },
    /// The deposit on a withdrawn proposal was returned.
    DepositRefunded { id: u64, proposer: Address, amount: i128 },
    /// A proposal was withdrawn.
    ProposalWithdrawn { id: u64, proposer: Address, now: u64 },
}

/// The model of an `Event`.
#[verifier::ext_equal]
pub enum EventModel {
    ProposalCreated {
        id: u64,
        proposer: Address,
        discussion_ends_at: u64,
        voting_starts: u64,
        voting_ends: u64,
    },
    DiscussionEnded { id: u64, discussion_ends_at: u64, now: u64 },
    UpgradeAnnounced {
        contract: Seq<u8>,
        new_hash: Seq<u8>,
        available_after: u64,
        payload: Seq<u8>,
    },
    DepositRefunded { id: u64, proposer: Address, amount: i128 },
    ProposalWithdrawn { id: u64, proposer: Address, now: u64 },
}

impl View for Event {
    type V = EventModel;

    open spec fn view(&self) -> EventModel {
        match self {
            Event::ProposalCreated {
                id,
                proposer,
                discussion_ends_at,
                voting_starts,
                voting_ends,
            } => EventModel::ProposalCreated {
                id: *id,
                proposer: *proposer,
                discussion_ends_at: *discussion_ends_at,
                voting_starts: *voting_starts,
                voting_ends: *voting_ends,
            },
            Event::DiscussionEnded { id, discussion_ends_at, now } => EventModel::DiscussionEnded {
                id: *id,
                discussion_ends_at: *discussion_ends_at,
                now: *now,
            },
            Event::UpgradeAnnounced {
                contract,
                new_hash,
                available_after,
                payload,
            } => EventModel::UpgradeAnnounced {
                contract: contract@,
                new_hash: new_hash@,
                available_after: *available_after,
                payload: payload@,
            },
            Event::DepositRefunded { id, proposer, amount } => EventModel::DepositRefunded {
                id: *id,
                proposer: *proposer,
                amount: *amount,
            },
            Event::ProposalWithdrawn { id, proposer, now } => EventModel::ProposalWithdrawn {
                id: *id,
                proposer: *proposer,
                now: *now,
            },
        }
    }
}

} // verus!
