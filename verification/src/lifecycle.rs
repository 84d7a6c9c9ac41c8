//! Calling proposals off.

use vstd::prelude::*;

use crate::deposits::refund_deposit;
use crate::proposals::{check_replacement, get_proposal, put_proposal};
use crate::state::{Governance, GovernanceModel};
use crate::types::{Address, Event, EventModel, GovernanceError, Proposal, ProposalStatus};

verus! {

impl GovernanceModel {
    /// Why a proposal cannot be cancelled, if there is a reason: only its proposer, the admin and
    /// the guardian can cancel it, and not once it was carried out or withdrawn.
    pub open spec fn cancellation_refusal(self, id: u64, canceller: Address) -> Option<
        GovernanceError,
    > {
        let p = self.proposals[id];
        if !self.proposals.contains_key(id) {
            Some(GovernanceError::ProposalNotFound)
        } else if self.admin is None {
            Some(GovernanceError::NotInitialized)
        } else if canceller != p.proposer && self.admin != Some(canceller) && self.guardian != Some(
            canceller,
        ) {
            Some(GovernanceError::Unauthorized)
        } else if p.status == ProposalStatus::Executed {
            Some(GovernanceError::InvalidCommitteeAction)
        } else {
            self.replacement_refusal(p.id)
        }
    }

    /// The state after a cancellation was requested, granted or not.
    pub open spec fn after_cancellation(self, id: u64, canceller: Address) -> GovernanceModel {
        if self.cancellation_refusal(id, canceller) is Some {
            self.demanding(canceller)
        } else {
            self.demanding(canceller).storing(
                self.proposals[id].with_status(ProposalStatus::Cancelled),
            )
        }
    }

    /// Why a proposal cannot be withdrawn, if there is a reason: only its proposer can withdraw it,
    /// only before the first vote, and only where the deposit can be returned.
    pub open spec fn withdrawal_refusal(self, id: u64, account: Address) -> Option<
        GovernanceError,
    > {
        let p = self.proposals[id];
        if !self.proposals.contains_key(id) {
            Some(GovernanceError::ProposalNotFound)
        } else if account != p.proposer {
            Some(GovernanceError::Unauthorized)
        } else if p.status != ProposalStatus::Pending {
            Some(GovernanceError::ProposalNotActive)
        } else if self.replacement_refusal(p.id) is Some {
            self.replacement_refusal(p.id)
        } else {
            self.refund_refusal(id, account)
        }
    }

    /// The state after a withdrawal was requested, granted or not.
    pub open spec fn after_withdrawal(self, now: u64, id: u64, account: Address) -> GovernanceModel {
        if self.withdrawal_refusal(id, account) is Some {
            self.demanding(account)
        } else {
            self.demanding(account).withdrawn(now, id, account)
        }
    }

    /// The state once a proposal was withdrawn by its proposer.
    pub open spec fn withdrawn(self, now: u64, id: u64, account: Address) -> GovernanceModel {
        self.storing(self.proposals[id].with_status(ProposalStatus::Withdrawn)).refunded(
            id,
            account,
        ).announcing(EventModel::ProposalWithdrawn { id, proposer: account, now })
    }
}

/// Cancels a proposal.
pub fn cancel_proposal(gov: &mut Governance, proposal_id: u64, canceller: Address) -> (result: Result<
    ProposalStatus,
    GovernanceError,
>)
    ensures
        final(gov)@ == old(gov)@.after_cancellation(proposal_id, canceller),
        result == match old(gov)@.cancellation_refusal(proposal_id, canceller) {
            Some(e) => Err(e),
            None => Ok(ProposalStatus::Cancelled),
        },
{
    gov.demand_auth(canceller);
    let mut proposal: Proposal = match get_proposal(gov, proposal_id) {
        Ok(proposal) => proposal,
        Err(e) => {
            return Err(e);
        },
    };
    let admin: Address = match gov.admin {
        Some(admin) => admin,
        None => {
            return Err(GovernanceError::NotInitialized);
        },
    };
    let is_guardian: bool = match gov.guardian {
        Some(guardian) => guardian == canceller,
        None => false,
    };
    if canceller != proposal.proposer && canceller != admin && !is_guardian {
        return Err(GovernanceError::Unauthorized);
    }
    if proposal.status == ProposalStatus::Executed {
        return Err(GovernanceError::InvalidCommitteeAction);
    }
    proposal.status = ProposalStatus::Cancelled;
    if let Err(e) = put_proposal(gov, &proposal) {
        return Err(e);
    }
    Ok(ProposalStatus::Cancelled)
}

/// Withdraws a proposal that nobody has voted on yet, at the request of its proposer. The deposit
/// that the proposer has locked is returned in full, whatever deposit is asked for today: taking a
/// mistake back is not punished.
///
/// Where an `i128` cannot hold the balance with the deposit, the withdrawal is refused and the
/// deposit stays locked.
pub fn withdraw_proposal(gov: &mut Governance, now: u64, proposal_id: u64, proposer: Address) -> (result:
    Result<ProposalStatus, GovernanceError>)
    ensures
        final(gov)@ == old(gov)@.after_withdrawal(now, proposal_id, proposer),
        result == match old(gov)@.withdrawal_refusal(proposal_id, proposer) {
            Some(e) => Err(e),
            None => Ok(ProposalStatus::Withdrawn),
        },
{
    gov.demand_auth(proposer);
    let mut proposal: Proposal = match get_proposal(gov, proposal_id) {
        Ok(proposal) => proposal,
        Err(e) => {
            return Err(e);
        },
    };
    if proposer != proposal.proposer {
        return Err(GovernanceError::Unauthorized);
    }
    if proposal.status != ProposalStatus::Pending {
        return Err(GovernanceError::ProposalNotActive);
    }
    if let Err(e) = check_replacement(gov, proposal.id) {
        return Err(e);
    }
    if let Err(e) = refund_deposit(gov, proposal_id, proposer) {
        return Err(e);
    }
    proposal.status = ProposalStatus::Withdrawn;
    if let Err(e) = put_proposal(gov, &proposal) {
        return Err(e);
    }
    gov.announce(Event::ProposalWithdrawn { id: proposal_id, proposer, now });
    Ok(ProposalStatus::Withdrawn)
}

} // verus!
