//! Lending voting power to another account.

use vstd::prelude::*;

use crate::collections::IdList;
use crate::math::{clamp_i128, saturating_add, saturating_total};
use crate::meaning::entry;
use crate::state::{Governance, GovernanceModel};
use crate::types::{Address, GovernanceError, VoteDelegation};

verus! {

impl GovernanceModel {
    /// Whether `account` has lent out its voting power.
    pub open spec fn has_delegated(self, account: Address) -> bool {
        self.delegations.contains_key(account) && self.delegations[account].active
    }

    /// The power that `delegator` has lent to `account`.
    pub open spec fn lent(self, delegator: Address, account: Address) -> int {
        if self.has_delegated(delegator) && self.delegations[delegator].delegate == account {
            self.delegations[delegator].delegated_power as int
        } else {
            0
        }
    }

    /// The power lent to `account` by each delegator, in their order.
    pub open spec fn received(self, account: Address) -> Seq<int> {
        self.delegators.map_values(|d: Address| self.lent(d, account))
    }

    /// The voting power that `account` has of its own stake.
    pub open spec fn own_power(self, account: Address) -> int {
        if self.has_delegated(account) {
            0
        } else {
            self.staked_by(account) as int
        }
    }

    /// The voting power of `account`: its stake, unless it has lent that out, and what was lent to
    /// it. Sums are held within an `i128`.
    pub open spec fn effective_power(self, account: Address) -> int {
        clamp_i128(self.own_power(account) + saturating_total(self.received(account)))
    }

    /// Why `delegator` cannot lend its power to `delegate`, if there is a reason.
    pub open spec fn delegation_refusal(self, delegator: Address, delegate: Address) -> Option<
        GovernanceError,
    > {
        if delegator == delegate {
            Some(GovernanceError::InvalidProposal)
        } else if self.has_delegated(delegator) {
            Some(GovernanceError::InvalidCommitteeAction)
        } else if self.staked_by(delegator) <= 0 {
            Some(GovernanceError::NoVotingPower)
        } else {
            None
        }
    }

    /// The state once `delegator` has lent its present stake to `delegate`.
    pub open spec fn delegated(self, delegator: Address, delegate: Address) -> GovernanceModel {
        GovernanceModel {
            delegations: self.delegations.insert(
                delegator,
                VoteDelegation {
                    delegator,
                    delegate,
                    delegated_power: self.staked_by(delegator),
                    active: true,
                },
            ),
            delegators: if self.delegators.contains(delegator) {
                self.delegators
            } else {
                self.delegators.push(delegator)
            },
            ..self
        }
    }

    /// The state after `delegator` has asked to lend its power to `delegate`.
    pub open spec fn after_delegation(self, delegator: Address, delegate: Address) -> GovernanceModel {
        if self.delegation_refusal(delegator, delegate) is Some {
            self.demanding(delegator)
        } else {
            self.demanding(delegator).delegated(delegator, delegate)
        }
    }

    /// Why `delegator` cannot take its power back, if there is a reason.
    pub open spec fn undelegation_refusal(self, delegator: Address) -> Option<GovernanceError> {
        if self.delegations.contains_key(delegator) {
            None
        } else {
            Some(GovernanceError::CrossCommitteeRequestNotFound)
        }
    }

    /// The state after `delegator` has asked for its power back.
    pub open spec fn after_undelegation(self, delegator: Address) -> GovernanceModel {
        if self.delegations.contains_key(delegator) {
            self.demanding(delegator).undelegated(delegator)
        } else {
            self.demanding(delegator)
        }
    }

    /// The state once `delegator` has taken its power back.
    pub open spec fn undelegated(self, delegator: Address) -> GovernanceModel {
        GovernanceModel {
            delegations: self.delegations.insert(
                delegator,
                VoteDelegation { active: false, ..self.delegations[delegator] },
            ),
            ..self
        }
    }

    /// The delegators are listed once each, and every delegation is of positive power, to another
    /// account, under the account that made it.
    pub open spec fn delegations_are_consistent(self) -> bool {
        &&& self.delegators.no_duplicates()
        &&& forall|a: Address| #[trigger]
            self.delegators.contains(a) <==> self.delegations.contains_key(a)
        &&& forall|a: Address| #[trigger]
            self.delegations.contains_key(a) ==> {
                &&& self.delegations[a].delegator == a
                &&& self.delegations[a].delegate != a
                &&& self.delegations[a].delegated_power > 0
            }
    }
}

/// Voting power is a matter of stakes and delegations alone: two states that agree on them give every
/// account the same power.
pub proof fn power_depends_on_stakes_and_delegations(a: GovernanceModel, b: GovernanceModel)
    requires
        a.staked == b.staked,
        a.delegations == b.delegations,
        a.delegators == b.delegators,
    ensures
        forall|account: Address|
            #![trigger a.effective_power(account)]
            #![trigger b.effective_power(account)]
            a.effective_power(account) == b.effective_power(account),
{
    assert forall|account: Address|
        #![trigger a.effective_power(account)]
        #![trigger b.effective_power(account)]
        a.effective_power(account) == b.effective_power(account) by {
        assert(a.received(account) =~= b.received(account));
    }
}

/// Whether `target` is in the list.
pub fn contains_address(list: &IdList, target: Address) -> (found: bool)
    ensures
        found == list@.contains(target),
{
    let n: u32 = list.len();
    let mut i: u32 = 0;
    while i < n
        invariant
            i <= n,
            n == list@.len(),
            forall|j: int| 0 <= j < i ==> list@[j] != target,
        decreases n - i,
    {
        if let Some(account) = list.get(i) {
            if account == target {
                assert(list@[i as int] == target);
                return true;
            }
        }
        i += 1;
    }
    false
}

/// Whether `account` has lent out its voting power.
fn delegates(gov: &Governance, account: Address) -> (active: bool)
    ensures
        active == gov@.has_delegated(account),
{
    match gov.delegations.delegations.get(account) {
        Some(delegation) => delegation.active,
        None => false,
    }
}

/// The voting power of `user`: its stake, unless it has lent that out, and what was lent to it.
pub fn get_effective_voting_power(gov: &Governance, user: Address) -> (power: i128)
    ensures
        power == gov@.effective_power(user),
{
    let own: i128 = if delegates(gov, user) {
        0
    } else {
        gov.staked.amount(user)
    };
    let n: u32 = gov.delegations.delegators.len();
    let mut lent: i128 = 0;
    let mut i: u32 = 0;
    let ghost received = gov@.received(user);
    while i < n
        invariant
            i <= n,
            n == gov.delegations.delegators@.len(),
            received == gov@.received(user),
            lent == saturating_total(received.take(i as int)),
        decreases n - i,
    {
        assert(received.take(i + 1).drop_last() =~= received.take(i as int));
        assert(received.take(i + 1).last() == received[i as int]);
        assert(saturating_total(received.take(i + 1)) == clamp_i128(lent + received[i as int]));
        if let Some(delegator) = gov.delegations.delegators.get(i) {
            if let Some(delegation) = gov.delegations.delegations.get(delegator) {
                if delegation.active && delegation.delegate == user {
                    lent = saturating_add(lent, delegation.delegated_power);
                }
            }
        }
        i += 1;
    }
    assert(received.take(n as int) =~= received);
    saturating_add(own, lent)
}

/// Whether `delegator` can lend its power to `delegate`.
pub fn check_delegation(gov: &Governance, delegator: Address, delegate: Address) -> (result: Result<
    (),
    GovernanceError,
>)
    ensures
        result == match gov@.delegation_refusal(delegator, delegate) {
            Some(e) => Err(e),
            None => Ok(()),
        },
        result is Ok <==> delegator != delegate && entry(gov@.staked, delegator) > 0 && !(
        gov@.delegations.contains_key(delegator) && gov@.delegations[delegator].active),
{
    if delegator == delegate {
        return Err(GovernanceError::InvalidProposal);
    }
    if delegates(gov, delegator) {
        return Err(GovernanceError::InvalidCommitteeAction);
    }
    if gov.staked.amount(delegator) <= 0 {
        return Err(GovernanceError::NoVotingPower);
    }
    Ok(())
}

/// Lends the present stake of `delegator` to `delegate`, until it is taken back. Refused are a
/// delegation to oneself, a second one while the first is active, and one without stake.
pub fn delegate_voting_power(gov: &mut Governance, delegator: Address, delegate: Address) -> (result:
    Result<(), GovernanceError>)
    requires
        old(gov)@.delegation_refusal(delegator, delegate) is None ==> old(gov)@.delegators.contains(
            delegator,
        ) || old(gov)@.delegators.len() < u32::MAX,
    ensures
        final(gov)@ == old(gov)@.after_delegation(delegator, delegate),
        result is Ok <==> delegator != delegate && entry(old(gov)@.staked, delegator) > 0 && !(old(
            gov,
        )@.delegations.contains_key(delegator) && old(gov)@.delegations[delegator].active),
        result == match old(gov)@.delegation_refusal(delegator, delegate) {
            Some(e) => Err(e),
            None => Ok(()),
        },
{
    gov.demand_auth(delegator);
    if let Err(e) = check_delegation(gov, delegator, delegate) {
        return Err(e);
    }
    let power: i128 = gov.staked.amount(delegator);
    gov.delegations.delegations.set(
        delegator,
        VoteDelegation { delegator, delegate, delegated_power: power, active: true },
    );
    if !contains_address(&gov.delegations.delegators, delegator) {
        gov.delegations.delegators.push_back(delegator);
    }
    Ok(())
}

/// Takes lent power back.
pub fn undelegate_voting_power(gov: &mut Governance, delegator: Address) -> (result: Result<
    (),
    GovernanceError,
>)
    ensures
        final(gov)@ == old(gov)@.after_undelegation(delegator),
        result == match old(gov)@.undelegation_refusal(delegator) {
            Some(e) => Err(e),
            None => Ok(()),
        },
{
    gov.demand_auth(delegator);
    let mut delegation: VoteDelegation = match gov.delegations.delegations.get(delegator) {
        Some(delegation) => delegation,
        None => {
            return Err(GovernanceError::CrossCommitteeRequestNotFound);
        },
    };
    delegation.active = false;
    gov.delegations.delegations.set(delegator, delegation);
    Ok(())
}

} // verus!
