//! What a proposal has to satisfy to be put to the vote.

use vstd::prelude::*;

use crate::bytes::ByteString;
use crate::math::{checked_mul, clamp_i128, fits_i128, saturating_mul};
use crate::state::{Governance, GovernanceModel};
use crate::types::{ActionModel, GovernanceError, ProposalType};

verus! {

/// The length of a code hash.
pub const HASH_LENGTH: u32 = 32;

/// The version byte that an action payload starts with.
pub const PAYLOAD_VERSION: u8 = 1;

/// The distance between two numbers.
pub open spec fn distance(a: int, b: int) -> int {
    if a >= b {
        a - b
    } else {
        b - a
    }
}

/// Whether the change of a positive parameter is one whose size an `i128` can hold.
pub open spec fn change_is_measurable(action: ActionModel) -> bool {
    match action {
        ActionModel::ParameterChange(name, current, proposed) => name.len() > 0 && current > 0
            ==> fits_i128(distance(proposed as int, current as int)),
        _ => true,
    }
}

impl GovernanceModel {
    /// Why an action cannot be proposed, if there is a reason. A parameter has a name and, where it
    /// is positive, changes by less than half. A payment is positive and at most a tenth of what
    /// the treasury holds of the asset. A code hash has its proper length.
    pub open spec fn action_refusal(self, action: ActionModel) -> Option<GovernanceError> {
        match action {
            ActionModel::ParameterChange(name, current, proposed) => {
                let change = distance(proposed as int, current as int);
                if name.len() == 0 {
                    Some(GovernanceError::InvalidProposal)
                } else if current <= 0 {
                    None
                } else if !fits_i128(change * 2) {
                    Some(GovernanceError::ArithmeticOverflow)
                } else if change * 2 >= current {
                    Some(GovernanceError::InvalidProposal)
                } else {
                    None
                }
            },
            ActionModel::TreasurySpend(_, amount, asset, _) => if amount > 0 && clamp_i128(
                amount * 10,
            ) <= self.treasury_holds(asset) {
                None
            } else {
                Some(GovernanceError::BudgetExceeded)
            },
            ActionModel::ContractUpgrade(_, hash) => if hash.len() == HASH_LENGTH {
                None
            } else {
                Some(GovernanceError::InvalidProposal)
            },
            _ => None,
        }
    }
}

/// Whether a payload fits an action: for an upgrade, it has the length of a code hash; for a payment
/// or a parameter, it is empty or starts with the version byte; for a custom action, it is not
/// empty; for anything else, it is free.
pub open spec fn payload_fits(action: ActionModel, payload: Seq<u8>) -> bool {
    match action {
        ActionModel::ContractUpgrade(_, _) => payload.len() == HASH_LENGTH,
        ActionModel::TreasurySpend(_, _, _, _) => payload.len() == 0 || payload[0]
            == PAYLOAD_VERSION,
        ActionModel::ParameterChange(_, _, _) => payload.len() == 0 || payload[0]
            == PAYLOAD_VERSION,
        ActionModel::Custom(_) => payload.len() > 0,
        ActionModel::FeatureToggle(_, _) => true,
        ActionModel::SignalProposal(_) => true,
    }
}

/// Whether an action can be proposed, given what the treasury holds.
pub fn validate_proposal(gov: &Governance, p: &ProposalType) -> (result: Result<(), GovernanceError>)
    requires
        change_is_measurable(p@),
    ensures
        match gov@.action_refusal(p@) {
            Some(e) => result == Err::<(), GovernanceError>(e),
            None => result is Ok,
        },
{
    match p {
        ProposalType::ParameterChange(parameter, current, proposed) => {
            if parameter.is_empty() {
                return Err(GovernanceError::InvalidProposal);
            }
            if *current > 0 {
                let change: i128 = if *proposed >= *current {
                    *proposed - *current
                } else {
                    *current - *proposed
                };
                match checked_mul(change, 2) {
                    Ok(doubled) => {
                        if doubled >= *current {
                            return Err(GovernanceError::InvalidProposal);
                        }
                    },
                    Err(e) => {
                        return Err(e);
                    },
                }
            }
        },
        ProposalType::TreasurySpend(_, amount, asset, _) => {
            let held: i128 = gov.treasury.amount(*asset);
            if *amount <= 0 || *amount > held || saturating_mul(*amount, 10) > held {
                return Err(GovernanceError::BudgetExceeded);
            }
        },
        ProposalType::ContractUpgrade(_, hash) => {
            if hash.len() != HASH_LENGTH {
                return Err(GovernanceError::InvalidProposal);
            }
        },
        _ => {},
    }
    Ok(())
}

/// Whether a payload fits an action.
pub fn validate_execution_payload(proposal_type: &ProposalType, payload: &ByteString) -> (result:
    Result<(), GovernanceError>)
    ensures
        result == if payload_fits(proposal_type@, payload@) {
            Ok::<(), GovernanceError>(())
        } else {
            Err(GovernanceError::InvalidProposal)
        },
{
    match proposal_type {
        ProposalType::ContractUpgrade(_, _) => {
            if payload.len() != HASH_LENGTH {
                return Err(GovernanceError::InvalidProposal);
            }
        },
        ProposalType::TreasurySpend(_, _, _, _) | ProposalType::ParameterChange(_, _, _) => {
            if let Some(version) = payload.get(0) {
                if version != PAYLOAD_VERSION {
                    return Err(GovernanceError::InvalidProposal);
                }
            }
        },
        ProposalType::Custom(_) => {
            if payload.is_empty() {
                return Err(GovernanceError::InvalidProposal);
            }
        },
        _ => {},
    }
    Ok(())
}

} // verus!
