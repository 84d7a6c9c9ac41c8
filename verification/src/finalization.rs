//! Deciding a proposal when its votes are in.

use vstd::prelude::*;

use crate::deposits::forfeit_deposit;
use crate::execution::execute_proposal;
use crate::math::{clamp_i128, saturating_add, saturating_mul};
use crate::meaning::{
    linear_decisions_are_shares_of_the_token_supply,
    quadratic_decisions_are_shares_of_the_quadratic_supply, reaches, shares_are_exact,
};
use crate::proposals::{check_replacement, get_proposal, later, put_proposal};
use crate::state::{get_governance_config, Governance, GovernanceModel};
use crate::thresholds::resolve_category_thresholds;
use crate::types::{
    ActionModel, Event, EventModel, GovernanceConfig, GovernanceError, Proposal, ProposalModel,
    ProposalStatus, ProposalType,
};

verus! {

/// One, in basis points.
pub const BPS_DENOMINATOR: i128 = 10_000;

impl ProposalModel {
    /// The weight of all votes, held within an `i128`.
    pub open spec fn total_votes(self) -> int {
        clamp_i128(clamp_i128(self.votes_for + self.votes_against) + self.votes_abstain)
    }

    /// The weight of the votes for and against, held within an `i128`.
    pub open spec fn cast_votes(self) -> int {
        clamp_i128(self.votes_for + self.votes_against)
    }

    /// Whether all votes together make up the quorum, a share of the reference supply. Products are
    /// held within an `i128`.
    pub open spec fn meets_quorum(self, reference: i128, quorum_bps: u32) -> bool {
        clamp_i128(self.total_votes() * BPS_DENOMINATOR) >= clamp_i128(reference * quorum_bps)
    }

    /// Whether the votes for make up the required share of the votes for and against. Products are
    /// held within an `i128`.
    pub open spec fn is_approved(self, approval_bps: u32) -> bool {
        self.cast_votes() > 0 && clamp_i128(self.votes_for * BPS_DENOMINATOR) >= clamp_i128(
            self.cast_votes() * approval_bps,
        )
    }

    /// What the votes decide.
    pub open spec fn verdict(self, reference: i128, quorum_bps: u32, approval_bps: u32) -> ProposalStatus {
        if self.meets_quorum(reference, quorum_bps) && self.is_approved(approval_bps) {
            ProposalStatus::Succeeded
        } else {
            ProposalStatus::Failed
        }
    }

    /// The proposal in another status.
    pub open spec fn with_status(self, status: ProposalStatus) -> ProposalModel {
        ProposalModel { status, ..self }
    }
}

impl GovernanceModel {
    /// The supply that the quorum is a share of: the quadratic one that was put on record where
    /// voting is quadratic, else that of the token, which has to be positive.
    pub open spec fn reference_supply(self, p: ProposalModel) -> Result<i128, GovernanceError> {
        if p.use_quadratic_voting && p.quadratic_total_supply > 0 {
            Ok(p.quadratic_total_supply)
        } else {
            match self.total_supply {
                Ok(supply) => if supply > 0 {
                    Ok(supply)
                } else {
                    Err(GovernanceError::InvalidSupply)
                },
                Err(e) => Err(e),
            }
        }
    }

    /// What the votes on `p` decide, given the thresholds of its category.
    pub open spec fn decision(self, p: ProposalModel) -> ProposalStatus {
        let (quorum, approval) = self.thresholds_for(p.category, self.rules());
        p.verdict(self.reference_supply(p)->Ok_0, quorum, approval)
    }

    /// Why a proposal cannot be decided, if there is a reason.
    pub open spec fn finalization_refusal(self, now: u64, id: u64) -> Option<GovernanceError> {
        let p = self.proposals[id];
        if !self.proposals.contains_key(id) {
            Some(GovernanceError::ProposalNotFound)
        } else if now < p.voting_ends {
            Some(GovernanceError::InvalidDuration)
        } else if !p.is_open() {
            Some(GovernanceError::ProposalNotActive)
        } else {
            match self.reference_supply(p) {
                Err(e) => Some(e),
                Ok(_) => if self.replacement_refusal(p.id) is Some {
                    self.replacement_refusal(p.id)
                } else if self.decision(p) == ProposalStatus::Failed {
                    self.forfeit_refusal(id)
                } else {
                    None
                },
            }
        }
    }

    /// The state once the decision on a proposal was stored. An approved upgrade is announced; the
    /// deposit on a proposal that has failed goes to the treasury.
    pub open spec fn decided(self, id: u64) -> GovernanceModel {
        let p = self.proposals[id];
        let stored = self.storing(p.with_status(self.decision(p)));
        if self.decision(p) == ProposalStatus::Failed {
            stored.forfeited(id)
        } else {
            match p.action {
                ActionModel::ContractUpgrade(contract, new_hash) => stored.announcing(
                    EventModel::UpgradeAnnounced {
                        contract,
                        new_hash,
                        available_after: later(p.voting_ends, self.rules().execution_delay),
                        payload: p.execution_payload,
                    },
                ),
                _ => stored,
            }
        }
    }

    /// The state after a decision was requested, taken or not.
    pub open spec fn after_finalization(self, now: u64, id: u64) -> GovernanceModel {
        if self.finalization_refusal(now, id) is Some {
            self
        } else {
            self.finalized(now, id)
        }
    }

    /// The state once a proposal was decided and, where it has succeeded and there is no execution
    /// delay, it was tried to carry it out on behalf of its proposer.
    pub open spec fn finalized(self, now: u64, id: u64) -> GovernanceModel {
        let p = self.proposals[id];
        if self.decision(p) == ProposalStatus::Succeeded && self.rules().execution_delay == 0 {
            self.decided(id).demanding(p.proposer).execution_tried(now, id)
        } else {
            self.decided(id)
        }
    }
}

/// What the votes on a proposal decide.
fn decide(proposal: &Proposal, reference: i128, quorum_bps: u32, approval_bps: u32) -> (status:
    ProposalStatus)
    ensures
        status == proposal@.verdict(reference, quorum_bps, approval_bps),
{
    let cast_votes: i128 = saturating_add(proposal.votes_for, proposal.votes_against);
    let total_votes: i128 = saturating_add(cast_votes, proposal.votes_abstain);
    let quorum_met: bool = saturating_mul(total_votes, BPS_DENOMINATOR) >= saturating_mul(
        reference,
        quorum_bps as i128,
    );
    if !quorum_met {
        return ProposalStatus::Failed;
    }
    let approved: bool = cast_votes > 0 && saturating_mul(proposal.votes_for, BPS_DENOMINATOR)
        >= saturating_mul(cast_votes, approval_bps as i128);
    if approved {
        ProposalStatus::Succeeded
    } else {
        ProposalStatus::Failed
    }
}

/// Decides a proposal once voting is over, and returns the decision. Where a proposal has succeeded
/// and there is no execution delay, it is carried out at once, if that is possible. Where it has
/// failed, the deposit on it goes to the treasury; if an `i128` cannot hold what the treasury would
/// have, the decision is refused.
pub fn finalize_proposal(gov: &mut Governance, now: u64, proposal_id: u64) -> (result: Result<
    ProposalStatus,
    GovernanceError,
>)
    ensures
        final(gov)@ == old(gov)@.after_finalization(now, proposal_id),
        result == match old(gov)@.finalization_refusal(now, proposal_id) {
            Some(e) => Err(e),
            None => Ok(old(gov)@.decision(old(gov)@.proposals[proposal_id])),
        },
        result matches Ok(status) ==> {
            let m = old(gov)@;
            let p = m.proposals[proposal_id];
            let supply = if p.use_quadratic_voting && p.quadratic_total_supply > 0 {
                p.quadratic_total_supply as int
            } else {
                m.total_supply->Ok_0 as int
            };
            shares_are_exact(m, p, supply) ==> (status is Succeeded <==> reaches(m, p, supply))
        },
{
    let mut proposal: Proposal = match get_proposal(gov, proposal_id) {
        Ok(proposal) => proposal,
        Err(e) => {
            return Err(e);
        },
    };
    if now < proposal.voting_ends {
        return Err(GovernanceError::InvalidDuration);
    }
    if proposal.status != ProposalStatus::Pending && proposal.status != ProposalStatus::Active {
        return Err(GovernanceError::ProposalNotActive);
    }
    let config: GovernanceConfig = get_governance_config(gov);
    let (quorum_bps, approval_bps) = resolve_category_thresholds(gov, &proposal.category, &config);
    let reference_supply: i128 = if proposal.use_quadratic_voting && proposal.quadratic_total_supply
        > 0 {
        proposal.quadratic_total_supply
    } else {
        match gov.total_supply {
            Ok(supply) => {
                if supply <= 0 {
                    return Err(GovernanceError::InvalidSupply);
                }
                supply
            },
            Err(e) => {
                return Err(e);
            },
        }
    };
    let status: ProposalStatus = decide(&proposal, reference_supply, quorum_bps, approval_bps);
    if let Err(e) = check_replacement(gov, proposal.id) {
        return Err(e);
    }
    if status == ProposalStatus::Failed {
        if let Err(e) = forfeit_deposit(gov, proposal_id) {
            return Err(e);
        }
    }
    proposal.status = status;
    if let Err(e) = put_proposal(gov, &proposal) {
        return Err(e);
    }
    if status == ProposalStatus::Succeeded {
        if let ProposalType::ContractUpgrade(contract, new_hash) = &proposal.proposal_type {
            gov.announce(
                Event::UpgradeAnnounced {
                    contract: contract.clone(),
                    new_hash: new_hash.clone(),
                    available_after: proposal.voting_ends.saturating_add(config.execution_delay),
                    payload: proposal.execution_payload.clone(),
                },
            );
        }
    }
    assert(gov@ == old(gov)@.decided(proposal_id));
    proof {
        let m = old(gov)@;
        let p = m.proposals[proposal_id];
        if shares_are_exact(m, p, reference_supply as int) {
            if p.use_quadratic_voting && p.quadratic_total_supply > 0 {
                quadratic_decisions_are_shares_of_the_quadratic_supply(m, now, proposal_id);
            } else {
                linear_decisions_are_shares_of_the_token_supply(m, now, proposal_id);
            }
        }
    }
    if status == ProposalStatus::Succeeded && config.execution_delay == 0 {
        let _ = execute_proposal(gov, now, proposal_id, proposal.proposer);
    }
    Ok(status)
}

} // verus!
