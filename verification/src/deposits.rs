//! Deposits that proposers lock: returned to a proposer who withdraws, forfeited to the treasury
//! where a proposal fails.

use vstd::prelude::*;

use crate::math::{checked_add, fits_i128};
use crate::state::{add_balance, Governance, GovernanceModel};
use crate::types::{Address, Event, EventModel, GovernanceError};

verus! {

impl GovernanceModel {
    /// Whether a deposit is locked on the proposal.
    pub open spec fn has_deposit(self, id: u64) -> bool {
        self.locked_deposits.contains_key(id) && self.locked_deposits[id].1 > 0
    }

    /// What is locked on the proposal.
    pub open spec fn deposit_on(self, id: u64) -> i128 {
        self.locked_deposits[id].1
    }

    /// Whether `account` has locked a deposit on the proposal.
    pub open spec fn deposit_is_due(self, id: u64, account: Address) -> bool {
        self.has_deposit(id) && self.locked_deposits[id].0 == account
    }

    /// The state without a deposit on the proposal.
    pub open spec fn unlocked(self, id: u64) -> GovernanceModel {
        GovernanceModel { locked_deposits: self.locked_deposits.remove(id), ..self }
    }

    /// Why the deposit of `account` on a proposal cannot be returned, if there is a reason: an
    /// `i128` cannot hold the new balance.
    pub open spec fn refund_refusal(self, id: u64, account: Address) -> Option<GovernanceError> {
        if self.deposit_is_due(id, account) && !self.can_credit(account, self.deposit_on(id)) {
            Some(GovernanceError::ArithmeticOverflow)
        } else {
            None
        }
    }

    /// The state once the deposit of `account` on a proposal was returned, where it has one.
    pub open spec fn refunded(self, id: u64, account: Address) -> GovernanceModel {
        if self.deposit_is_due(id, account) {
            let amount = self.deposit_on(id);
            self.credited(account, amount).unlocked(id).announcing(
                EventModel::DepositRefunded { id, proposer: account, amount },
            )
        } else {
            self
        }
    }

    /// Why the deposit on a proposal cannot be forfeited, if there is a reason: an `i128` cannot
    /// hold what the treasury would have.
    pub open spec fn forfeit_refusal(self, id: u64) -> Option<GovernanceError> {
        if self.has_deposit(id) && !fits_i128(
            self.treasury_holds(self.deposit_asset) + self.deposit_on(id),
        ) {
            Some(GovernanceError::ArithmeticOverflow)
        } else {
            None
        }
    }

    /// The state once the deposit on a proposal went to the treasury, where there is one.
    pub open spec fn forfeited(self, id: u64) -> GovernanceModel {
        if self.has_deposit(id) {
            GovernanceModel {
                treasury: self.treasury.insert(
                    self.deposit_asset,
                    (self.treasury_holds(self.deposit_asset) + self.deposit_on(id)) as i128,
                ),
                ..self
            }.unlocked(id)
        } else {
            self
        }
    }
}

/// Who has locked a deposit on the proposal, and how much, if anybody has.
fn locked_deposit(gov: &Governance, id: u64) -> (deposit: Option<(Address, i128)>)
    ensures
        deposit == if gov@.has_deposit(id) {
            Some(gov@.locked_deposits[id])
        } else {
            None
        },
{
    match gov.locked_deposits.get(&id) {
        Some(deposit) => {
            if deposit.1 > 0 {
                Some(*deposit)
            } else {
                None
            }
        },
        None => None,
    }
}

/// Returns the deposit of `account` on a proposal, where it has one.
pub(crate) fn refund_deposit(gov: &mut Governance, id: u64, account: Address) -> (result: Result<
    (),
    GovernanceError,
>)
    ensures
        final(gov)@ == if old(gov)@.refund_refusal(id, account) is Some {
            old(gov)@
        } else {
            old(gov)@.refunded(id, account)
        },
        result == match old(gov)@.refund_refusal(id, account) {
            Some(e) => Err(e),
            None => Ok(()),
        },
{
    if let Some((owner, amount)) = locked_deposit(gov, id) {
        if owner == account {
            if let Err(e) = add_balance(gov, account, amount) {
                return Err(e);
            }
            gov.locked_deposits.remove(&id);
            gov.announce(Event::DepositRefunded { id, proposer: account, amount });
        }
    }
    Ok(())
}

/// Hands the deposit on a proposal to the treasury, where there is one.
pub(crate) fn forfeit_deposit(gov: &mut Governance, id: u64) -> (result: Result<
    (),
    GovernanceError,
>)
    ensures
        final(gov)@ == if old(gov)@.forfeit_refusal(id) is Some {
            old(gov)@
        } else {
            old(gov)@.forfeited(id)
        },
        result == match old(gov)@.forfeit_refusal(id) {
            Some(e) => Err(e),
            None => Ok(()),
        },
{
    if let Some((_, amount)) = locked_deposit(gov, id) {
        let asset: u64 = gov.deposit_asset;
        match checked_add(gov.treasury.amount(asset), amount) {
            Ok(sum) => {
                gov.treasury.set(asset, sum);
            },
            Err(e) => {
                return Err(e);
            },
        }
        gov.locked_deposits.remove(&id);
    }
    Ok(())
}

} // verus!
