//! Carrying out proposals that have succeeded.

use vstd::prelude::*;

use crate::collections::{set_feature, set_parameter, set_upgrade};
use crate::math::{checked_sub, fits_i128};
use crate::proposals::{get_proposal, later, put_proposal};
use crate::state::{add_balance, get_governance_config, Governance, GovernanceModel};
use crate::types::{
    ActionModel, Address, GovernanceError, Proposal, ProposalModel, ProposalStatus, ProposalType,
};

verus! {

impl ProposalModel {
    /// The proposal, carried out at `now`.
    pub open spec fn executed(self, now: u64) -> ProposalModel {
        ProposalModel { status: ProposalStatus::Executed, executed_at: Some(now), ..self }
    }
}

impl GovernanceModel {
    /// Whether the treasury can be debited: it holds the amount, and an `i128` can hold what is
    /// left.
    pub open spec fn can_debit(self, asset: u64, amount: i128) -> bool {
        self.treasury_holds(asset) >= amount && fits_i128(self.treasury_holds(asset) - amount)
    }

    /// The state with the treasury debited.
    pub open spec fn debited(self, asset: u64, amount: i128) -> GovernanceModel {
        GovernanceModel {
            treasury: self.treasury.insert(asset, (self.treasury_holds(asset) - amount) as i128),
            ..self
        }
    }

    /// Why an action fails, if there is a reason. Only payments can.
    pub open spec fn action_failure(self, action: ActionModel) -> Option<GovernanceError> {
        match action {
            ActionModel::TreasurySpend(recipient, amount, asset, _) => if self.treasury_holds(asset)
                < amount {
                Some(GovernanceError::InsufficientBalance)
            } else if !self.can_debit(asset, amount) || !self.can_credit(recipient, amount) {
                Some(GovernanceError::ArithmeticOverflow)
            } else {
                None
            },
            _ => None,
        }
    }

    /// The state once an action was tried. A payment that cannot be credited has been debited all
    /// the same.
    pub open spec fn acted(self, action: ActionModel) -> GovernanceModel {
        match action {
            ActionModel::ParameterChange(name, _, proposed) => GovernanceModel {
                parameters: self.parameters.insert(name, proposed),
                ..self
            },
            ActionModel::TreasurySpend(recipient, amount, asset, _) => if self.can_debit(
                asset,
                amount,
            ) {
                self.debited(asset, amount).credited(recipient, amount)
            } else {
                self
            },
            ActionModel::FeatureToggle(name, enabled) => GovernanceModel {
                features: self.features.insert(name, enabled),
                ..self
            },
            ActionModel::ContractUpgrade(name, hash) => GovernanceModel {
                upgrades: self.upgrades.insert(name, hash),
                ..self
            },
            ActionModel::SignalProposal(_) => self,
            ActionModel::Custom(_) => self,
        }
    }

    /// Why the action of the proposal with the given number is not carried out, if there is a
    /// reason.
    pub open spec fn numbered_action_failure(self, id: u64) -> Option<GovernanceError> {
        if self.proposals.contains_key(id) {
            self.action_failure(self.proposals[id].action)
        } else {
            Some(GovernanceError::ProposalNotFound)
        }
    }

    /// The state after it was tried to carry out the action of the proposal with the given number.
    pub open spec fn after_action(self, id: u64) -> GovernanceModel {
        if self.proposals.contains_key(id) {
            self.acted(self.proposals[id].action)
        } else {
            self
        }
    }

    /// Why a proposal is not carried out, if there is a reason that lies before its action.
    pub open spec fn execution_refusal(self, now: u64, id: u64) -> Option<GovernanceError> {
        let p = self.proposals[id];
        if !self.proposals.contains_key(id) {
            Some(GovernanceError::ProposalNotFound)
        } else if p.status != ProposalStatus::Succeeded {
            Some(GovernanceError::ProposalNotApproved)
        } else if now < later(p.voting_ends, self.rules().execution_delay) {
            Some(GovernanceError::InvalidDuration)
        } else {
            None
        }
    }

    /// Why a proposal is not carried out, if there is a reason.
    pub open spec fn execution_failure(self, now: u64, id: u64) -> Option<GovernanceError> {
        let p = self.proposals[id];
        if self.execution_refusal(now, id) is Some {
            self.execution_refusal(now, id)
        } else if self.action_failure(p.action) is Some {
            self.action_failure(p.action)
        } else {
            self.replacement_refusal(p.id)
        }
    }

    /// The state after `executor` has asked to carry out a proposal.
    pub open spec fn after_execution(self, now: u64, id: u64, executor: Address) -> GovernanceModel {
        self.demanding(executor).execution_tried(now, id)
    }

    /// The state once it was tried to carry out a proposal.
    pub open spec fn execution_tried(self, now: u64, id: u64) -> GovernanceModel {
        let p = self.proposals[id];
        if self.execution_refusal(now, id) is Some {
            self
        } else if self.execution_failure(now, id) is Some {
            self.acted(p.action)
        } else {
            self.acted(p.action).storing(p.executed(now))
        }
    }
}

/// Tries to carry out what a proposal proposes.
pub fn execute_proposal_action(gov: &mut Governance, proposal: &Proposal) -> (result: Result<
    (),
    GovernanceError,
>)
    ensures
        final(gov)@ == old(gov)@.acted(proposal@.action),
        result == match old(gov)@.action_failure(proposal@.action) {
            Some(e) => Err(e),
            None => Ok(()),
        },
        match proposal@.action {
            ActionModel::ParameterChange(name, _, proposed) => final(gov)@.parameters.get(name)
                == Some(proposed),
            ActionModel::FeatureToggle(name, enabled) => final(gov)@.features.get(name) == Some(
                enabled,
            ),
            ActionModel::ContractUpgrade(name, hash) => final(gov)@.upgrades.get(name) == Some(hash),
            _ => true,
        },
{
    match &proposal.proposal_type {
        ProposalType::ParameterChange(parameter, _, proposed) => {
            set_parameter(&mut gov.parameters, parameter, *proposed);
        },
        ProposalType::TreasurySpend(recipient, amount, asset, _) => {
            let held: i128 = gov.treasury.amount(*asset);
            if held < *amount {
                return Err(GovernanceError::InsufficientBalance);
            }
            match checked_sub(held, *amount) {
                Ok(left) => {
                    gov.treasury.set(*asset, left);
                },
                Err(e) => {
                    return Err(e);
                },
            }
            return add_balance(gov, *recipient, *amount);
        },
        ProposalType::FeatureToggle(feature, enabled) => {
            set_feature(&mut gov.features, feature, *enabled);
        },
        ProposalType::ContractUpgrade(contract, new_hash) => {
            set_upgrade(&mut gov.upgrades, contract, new_hash);
        },
        ProposalType::SignalProposal(_) => {},
        ProposalType::Custom(_) => {},
    }
    Ok(())
}

/// Tries to carry out what the proposal with the given number proposes, whatever its status.
pub fn execute_proposal_action_by_id(gov: &mut Governance, proposal_id: u64) -> (result: Result<
    (),
    GovernanceError,
>)
    ensures
        final(gov)@ == old(gov)@.after_action(proposal_id),
        result == match old(gov)@.numbered_action_failure(proposal_id) {
            Some(e) => Err(e),
            None => Ok(()),
        },
{
    match get_proposal(gov, proposal_id) {
        Ok(proposal) => execute_proposal_action(gov, &proposal),
        Err(e) => Err(e),
    }
}

/// Carries out a proposal that has succeeded, once the execution delay is over.
pub fn execute_proposal(gov: &mut Governance, now: u64, proposal_id: u64, executor: Address) -> (result:
    Result<ProposalStatus, GovernanceError>)
    ensures
        final(gov)@ == old(gov)@.after_execution(now, proposal_id, executor),
        result == match old(gov)@.execution_failure(now, proposal_id) {
            Some(e) => Err(e),
            None => Ok(ProposalStatus::Executed),
        },
{
    gov.demand_auth(executor);
    let mut proposal: Proposal = match get_proposal(gov, proposal_id) {
        Ok(proposal) => proposal,
        Err(e) => {
            return Err(e);
        },
    };
    if proposal.status != ProposalStatus::Succeeded {
        return Err(GovernanceError::ProposalNotApproved);
    }
    let delay: u64 = get_governance_config(gov).execution_delay;
    let ready: u64 = proposal.voting_ends.saturating_add(delay);
    if now < ready {
        return Err(GovernanceError::InvalidDuration);
    }
    if let Err(e) = execute_proposal_action(gov, &proposal) {
        return Err(e);
    }
    proposal.status = ProposalStatus::Executed;
    proposal.executed_at = Some(now);
    if let Err(e) = put_proposal(gov, &proposal) {
        return Err(e);
    }
    Ok(ProposalStatus::Executed)
}

/// Notes that a proposal was carried out by other means.
pub fn mark_proposal_executed(gov: &mut Governance, now: u64, proposal_id: u64) -> (result: Result<
    (),
    GovernanceError,
>)
    ensures
        final(gov)@ == old(gov)@.after_marking(now, proposal_id),
        result == match old(gov)@.marking_refusal(proposal_id) {
            Some(e) => Err(e),
            None => Ok(()),
        },
{
    let mut proposal: Proposal = match get_proposal(gov, proposal_id) {
        Ok(proposal) => proposal,
        Err(e) => {
            return Err(e);
        },
    };
    proposal.status = ProposalStatus::Executed;
    proposal.executed_at = Some(now);
    put_proposal(gov, &proposal)
}

impl GovernanceModel {
    /// Why a proposal cannot be marked as carried out, if there is a reason.
    pub open spec fn marking_refusal(self, id: u64) -> Option<GovernanceError> {
        if !self.proposals.contains_key(id) {
            Some(GovernanceError::ProposalNotFound)
        } else {
            self.replacement_refusal(self.proposals[id].id)
        }
    }

    /// The state after a proposal was to be marked as carried out.
    pub open spec fn after_marking(self, now: u64, id: u64) -> GovernanceModel {
        if self.marking_refusal(id) is Some {
            self
        } else {
            self.storing(self.proposals[id].executed(now))
        }
    }
}

} // verus!
