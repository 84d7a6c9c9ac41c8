//! All that governance keeps, and what a request leaves for the caller to carry out.

use std::collections::BTreeMap;

use soroban_sdk::Env;
use vstd::prelude::*;

use crate::collections::{amount_of, feature_flags, parameter_values, upgrade_hashes, Amounts, IdList};
use crate::math::{checked_add, fits_i128};
use crate::tables::{Delegations, Thresholds};
use crate::types::{
    Address, Asset, CategoryThreshold, DelegationState, Event, EventModel, GovernanceConfig,
    GovernanceError, Proposal, ProposalModel, ProposalsState, VoteDelegation,
};

verus! {

/// What requests leave for the caller: accounts whose authorization it has to demand before
/// anything of the request takes effect, and events to publish.
#[derive(Debug, PartialEq, Eq)]
pub struct Outbox {
    pub auths: Vec<Address>,
    pub events: Vec<Event>,
}

/// The state of governance, as the caller has loaded it and will store it again.
#[derive(Debug, PartialEq, Eq)]
pub struct Governance {
    pub admin: Option<Address>,
    pub guardian: Option<Address>,
    /// The configuration that the admin has set, if any.
    pub config: Option<GovernanceConfig>,
    pub proposals: ProposalsState,
    pub delegations: DelegationState,
    /// The thresholds that the admin has set, by category key.
    pub thresholds: Thresholds,
    pub parameters: soroban_sdk::Map<soroban_sdk::String, i128>,
    pub features: soroban_sdk::Map<soroban_sdk::String, bool>,
    pub upgrades: soroban_sdk::Map<soroban_sdk::String, soroban_sdk::Bytes>,
    /// For each proposal, the voting power of every holder when it was created.
    pub snapshots: BTreeMap<u64, Amounts>,
    /// What the treasury holds of each asset.
    pub treasury: Amounts,
    /// What each account holds of the token.
    pub balances: Amounts,
    /// What each account has staked of the token.
    pub staked: Amounts,
    /// The accounts that hold the token.
    pub holders: IdList,
    /// The supply of the token, or why there is none.
    pub total_supply: Result<i128, GovernanceError>,
    /// The treasury asset that deposits are held in.
    pub deposit_asset: Asset,
    /// For each proposal with a locked deposit, who locked it, and how much.
    pub locked_deposits: BTreeMap<u64, (Address, i128)>,
    pub outbox: Outbox,
}

/// The model of a `Governance`.
#[verifier::ext_equal]
pub struct GovernanceModel {
    pub admin: Option<Address>,
    pub guardian: Option<Address>,
    pub config: Option<GovernanceConfig>,
    pub proposals: Map<u64, ProposalModel>,
    pub proposal_ids: Seq<u64>,
    pub next_proposal_id: u64,
    pub delegations: Map<Address, VoteDelegation>,
    pub delegators: Seq<Address>,
    pub thresholds: Map<u32, CategoryThreshold>,
    pub parameters: Map<Seq<u8>, i128>,
    pub features: Map<Seq<u8>, bool>,
    pub upgrades: Map<Seq<u8>, Seq<u8>>,
    pub snapshots: Map<u64, Map<Address, i128>>,
    pub treasury: Map<Asset, i128>,
    pub balances: Map<Address, i128>,
    pub staked: Map<Address, i128>,
    pub holders: Seq<Address>,
    pub total_supply: Result<i128, GovernanceError>,
    pub deposit_asset: Asset,
    pub locked_deposits: Map<u64, (Address, i128)>,
    pub auths: Seq<Address>,
    pub events: Seq<EventModel>,
}

impl View for Governance {
    type V = GovernanceModel;

    open spec fn view(&self) -> GovernanceModel {
        GovernanceModel {
            admin: self.admin,
            guardian: self.guardian,
            config: self.config,
            proposals: self.proposals.proposals@.map_values(|p: Proposal| p@),
            proposal_ids: self.proposals.proposal_ids@,
            next_proposal_id: self.proposals.next_proposal_id,
            delegations: self.delegations.delegations@,
            delegators: self.delegations.delegators@,
            thresholds: self.thresholds@,
            parameters: parameter_values(self.parameters),
            features: feature_flags(self.features),
            upgrades: upgrade_hashes(self.upgrades),
            snapshots: self.snapshots@.map_values(|s: Amounts| s@),
            treasury: self.treasury@,
            balances: self.balances@,
            staked: self.staked@,
            holders: self.holders@,
            total_supply: self.total_supply,
            deposit_asset: self.deposit_asset,
            locked_deposits: self.locked_deposits@,
            auths: self.outbox.auths@,
            events: self.outbox.events@.map_values(|e: Event| e@),
        }
    }
}

impl GovernanceModel {
    /// The same state, with a demand for the authorization of `account` noted.
    pub open spec fn demanding(self, account: Address) -> GovernanceModel {
        GovernanceModel { auths: self.auths.push(account), ..self }
    }

    /// The same state, with an event noted.
    pub open spec fn announcing(self, event: EventModel) -> GovernanceModel {
        GovernanceModel { events: self.events.push(event), ..self }
    }

    /// Why a configuration is not put in force, if there is a reason.
    pub open spec fn configuration_refusal(
        self,
        admin_check: Result<(), GovernanceError>,
        config: GovernanceConfig,
    ) -> Option<GovernanceError> {
        match admin_check {
            Err(e) => Some(e),
            Ok(()) => if config_is_valid(config) {
                None
            } else {
                Some(GovernanceError::InvalidGovernanceConfig)
            },
        }
    }

    /// The state after a configuration was to be put in force.
    pub open spec fn after_configuration(
        self,
        admin_check: Result<(), GovernanceError>,
        config: GovernanceConfig,
    ) -> GovernanceModel {
        if admin_check is Ok && config_is_valid(config) {
            GovernanceModel { config: Some(config), ..self }
        } else {
            self
        }
    }

    /// The configuration in force.
    pub open spec fn rules(self) -> GovernanceConfig {
        match self.config {
            Some(config) => config,
            None => default_config(),
        }
    }
}

impl Governance {
    /// Notes that the caller has to demand the authorization of `account`.
    pub(crate) fn demand_auth(&mut self, account: Address)
        ensures
            final(self)@ == old(self)@.demanding(account),
    {
        self.outbox.auths.push(account);
    }

    /// Notes an event for the caller to publish.
    pub(crate) fn announce(&mut self, event: Event)
        ensures
            final(self)@ == old(self)@.announcing(event@),
    {
        self.outbox.events.push(event);
        assert(final(self)@.events =~= old(self)@.events.push(event@));
    }
}

/// The configuration in force where the admin has set none: a proposal takes a power of 1000; votes
/// open after a minute, for a week; a tenth of the supply has to take part, and half of the votes
/// for and against have to be for.
pub open spec fn default_config() -> GovernanceConfig {
    GovernanceConfig {
        min_proposal_threshold: 1_000,
        voting_period: 604_800,
        voting_delay: 60,
        quorum_threshold: 1_000,
        approval_threshold: 5_000,
        execution_delay: 0,
        discussion_duration: 0,
    }
}

/// The configuration in force where the admin has set none.
pub fn default_governance_config() -> (config: GovernanceConfig)
    ensures
        config == default_config(),
{
    GovernanceConfig {
        min_proposal_threshold: 1_000,
        voting_period: 7 * 24 * 60 * 60,
        voting_delay: 60,
        quorum_threshold: 1_000,
        approval_threshold: 5_000,
        execution_delay: 0,
        discussion_duration: 0,
    }
}

/// The configuration in force.
pub fn get_governance_config(gov: &Governance) -> (config: GovernanceConfig)
    ensures
        config == gov@.rules(),
{
    match gov.config {
        Some(config) => config,
        None => default_governance_config(),
    }
}

/// What makes a configuration acceptable.
pub open spec fn config_is_valid(config: GovernanceConfig) -> bool {
    &&& config.min_proposal_threshold > 0
    &&& config.voting_period > 0
    &&& config.quorum_threshold <= 10_000
    &&& config.approval_threshold <= 10_000
}

/// Puts a configuration in force. `admin_check` says whether the request comes from the admin, or
/// why it is refused.
pub fn configure_governance(
    gov: &mut Governance,
    admin_check: Result<(), GovernanceError>,
    config: GovernanceConfig,
) -> (result: Result<GovernanceConfig, GovernanceError>)
    ensures
        final(gov)@ == old(gov)@.after_configuration(admin_check, config),
        result == match old(gov)@.configuration_refusal(admin_check, config) {
            Some(e) => Err(e),
            None => Ok(config),
        },
{
    if let Err(e) = admin_check {
        return Err(e);
    }
    if config.min_proposal_threshold <= 0 || config.voting_period == 0 || config.quorum_threshold
        > 10_000 || config.approval_threshold > 10_000 {
        return Err(GovernanceError::InvalidGovernanceConfig);
    }
    gov.config = Some(config);
    Ok(config)
}

/// No proposals; the first one gets the number 1.
pub fn empty_proposals_state(env: &Env) -> (state: ProposalsState)
    ensures
        state.proposals@ == Map::<u64, Proposal>::empty(),
        state.proposal_ids@ == Seq::<u64>::empty(),
        state.next_proposal_id == 1,
{
    ProposalsState {
        proposals: BTreeMap::new(),
        proposal_ids: IdList::new(env),
        next_proposal_id: 1,
    }
}

/// No delegations.
pub fn empty_delegation_state(env: &Env) -> (state: DelegationState)
    ensures
        state.delegations@ == Map::<Address, VoteDelegation>::empty(),
        state.delegators@ == Seq::<Address>::empty(),
{
    DelegationState { delegations: Delegations::new(env), delegators: IdList::new(env) }
}

/// The proposals that were found in storage, none where nothing was found.
pub fn get_proposals_state(env: &Env, stored: Option<ProposalsState>) -> (state: ProposalsState)
    ensures
        match stored {
            Some(s) => state == s,
            None => {
                &&& state.proposals@ == Map::<u64, Proposal>::empty()
                &&& state.proposal_ids@ == Seq::<u64>::empty()
                &&& state.next_proposal_id == 1
            },
        },
{
    match stored {
        Some(state) => state,
        None => empty_proposals_state(env),
    }
}

/// The delegations that were found in storage, none where nothing was found.
pub fn get_delegation_state(env: &Env, stored: Option<DelegationState>) -> (state: DelegationState)
    ensures
        match stored {
            Some(s) => state == s,
            None => {
                &&& state.delegations@ == Map::<Address, VoteDelegation>::empty()
                &&& state.delegators@ == Seq::<Address>::empty()
            },
        },
{
    match stored {
        Some(state) => state,
        None => empty_delegation_state(env),
    }
}

/// Credits `account` with `amount`, unless an `i128` cannot hold the new balance.
pub fn add_balance(gov: &mut Governance, account: Address, amount: i128) -> (result: Result<
    (),
    GovernanceError,
>)
    ensures
        final(gov)@ == old(gov)@.credited(account, amount),
        result == if old(gov)@.can_credit(account, amount) {
            Ok::<(), GovernanceError>(())
        } else {
            Err(GovernanceError::ArithmeticOverflow)
        },
{
    match checked_add(gov.balances.amount(account), amount) {
        Ok(balance) => {
            gov.balances.set(account, balance);
            Ok(())
        },
        Err(e) => Err(e),
    }
}

impl GovernanceModel {
    /// The token balance of `account`.
    pub open spec fn balance_of(self, account: Address) -> i128 {
        amount_of(self.balances, account)
    }

    /// What `account` has staked.
    pub open spec fn staked_by(self, account: Address) -> i128 {
        amount_of(self.staked, account)
    }

    /// What the treasury holds of `asset`.
    pub open spec fn treasury_holds(self, asset: Asset) -> i128 {
        amount_of(self.treasury, asset)
    }

    /// Whether an `i128` can hold the balance of `account` with `amount` added.
    pub open spec fn can_credit(self, account: Address, amount: i128) -> bool {
        fits_i128(self.balance_of(account) + amount)
    }

    /// `account` with `amount` added to its balance, where an `i128` can hold the sum.
    pub open spec fn credited(self, account: Address, amount: i128) -> GovernanceModel {
        if self.can_credit(account, amount) {
            GovernanceModel {
                balances: self.balances.insert(
                    account,
                    (self.balance_of(account) + amount) as i128,
                ),
                ..self
            }
        } else {
            self
        }
    }
}

} // verus!
