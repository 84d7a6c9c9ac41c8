//! Quorum and approval thresholds of the proposal categories.

use vstd::prelude::*;

use crate::state::{Governance, GovernanceModel};
use crate::types::{CategoryThreshold, GovernanceConfig, GovernanceError, ProposalCategory};

verus! {

/// The key under which the thresholds of a category are stored.
pub open spec fn category_key(category: ProposalCategory) -> u32 {
    match category {
        ProposalCategory::ParameterChange => 0,
        ProposalCategory::ContractUpgrade => 1,
        ProposalCategory::TreasuryTransfer => 2,
        ProposalCategory::General => 3,
    }
}

/// The key under which the thresholds of a category are stored.
pub fn category_to_key(category: &ProposalCategory) -> (key: u32)
    ensures
        key == category_key(*category),
{
    match category {
        ProposalCategory::ParameterChange => 0,
        ProposalCategory::ContractUpgrade => 1,
        ProposalCategory::TreasuryTransfer => 2,
        ProposalCategory::General => 3,
    }
}

impl GovernanceModel {
    /// The thresholds set for a category, if any.
    pub open spec fn category_threshold(self, category: ProposalCategory) -> Option<
        CategoryThreshold,
    > {
        if self.thresholds.contains_key(category_key(category)) {
            Some(self.thresholds[category_key(category)])
        } else {
            None
        }
    }

    /// Why the thresholds of a category are not set, if there is a reason.
    pub open spec fn threshold_setting_refusal(
        self,
        admin_check: Result<(), GovernanceError>,
        threshold: CategoryThreshold,
    ) -> Option<GovernanceError> {
        match admin_check {
            Err(e) => Some(e),
            Ok(()) => if threshold_is_valid(threshold) {
                None
            } else {
                Some(GovernanceError::InvalidGovernanceConfig)
            },
        }
    }

    /// The state after the thresholds of a category were to be set.
    pub open spec fn after_threshold_setting(
        self,
        admin_check: Result<(), GovernanceError>,
        category: ProposalCategory,
        threshold: CategoryThreshold,
    ) -> GovernanceModel {
        if admin_check is Ok && threshold_is_valid(threshold) {
            GovernanceModel {
                thresholds: self.thresholds.insert(category_key(category), threshold),
                ..self
            }
        } else {
            self
        }
    }

    /// The quorum and the approval threshold of a category: what is set for it and not zero, else
    /// the global threshold.
    pub open spec fn thresholds_for(self, category: ProposalCategory, global: GovernanceConfig) -> (
        u32,
        u32,
    ) {
        match self.category_threshold(category) {
            Some(t) => (
                if t.quorum_bps > 0 {
                    t.quorum_bps
                } else {
                    global.quorum_threshold
                },
                if t.supermajority_bps > 0 {
                    t.supermajority_bps
                } else {
                    global.approval_threshold
                },
            ),
            None => (global.quorum_threshold, global.approval_threshold),
        }
    }
}

/// The quorum and the approval threshold of a category, in basis points. Where none is set, or
/// zero, the global one is in force.
pub fn resolve_category_thresholds(
    gov: &Governance,
    category: &ProposalCategory,
    global: &GovernanceConfig,
) -> (thresholds: (u32, u32))
    ensures
        thresholds == gov@.thresholds_for(*category, *global),
{
    match gov.thresholds.get(category_to_key(category)) {
        Some(t) => {
            let quorum: u32 = if t.quorum_bps > 0 {
                t.quorum_bps
            } else {
                global.quorum_threshold
            };
            let approval: u32 = if t.supermajority_bps > 0 {
                t.supermajority_bps
            } else {
                global.approval_threshold
            };
            (quorum, approval)
        },
        None => (global.quorum_threshold, global.approval_threshold),
    }
}

/// What makes category thresholds acceptable.
pub open spec fn threshold_is_valid(threshold: CategoryThreshold) -> bool {
    threshold.quorum_bps <= 10_000 && threshold.supermajority_bps <= 10_000
}

/// Sets the thresholds of a category. `admin_check` says whether the request comes from the admin,
/// or why it is refused.
pub fn set_category_thresholds(
    gov: &mut Governance,
    admin_check: Result<(), GovernanceError>,
    category: ProposalCategory,
    threshold: CategoryThreshold,
) -> (result: Result<(), GovernanceError>)
    ensures
        final(gov)@ == old(gov)@.after_threshold_setting(admin_check, category, threshold),
        result == match old(gov)@.threshold_setting_refusal(admin_check, threshold) {
            Some(e) => Err(e),
            None => Ok(()),
        },
{
    if let Err(e) = admin_check {
        return Err(e);
    }
    if threshold.quorum_bps > 10_000 || threshold.supermajority_bps > 10_000 {
        return Err(GovernanceError::InvalidGovernanceConfig);
    }
    gov.thresholds.set(category_to_key(&category), threshold);
    Ok(())
}

/// The thresholds set for a category, or `None` where none are set.
pub fn get_category_threshold(gov: &Governance, category: &ProposalCategory) -> (threshold: Option<
    CategoryThreshold,
>)
    ensures
        threshold == gov@.category_threshold(*category),
{
    gov.thresholds.get(category_to_key(category))
}

/// Categories do not share their thresholds: setting those of one leaves those of every other one
/// as they were, and what is set is what is read back.
pub proof fn category_thresholds_are_independent(
    m: GovernanceModel,
    category: ProposalCategory,
    threshold: CategoryThreshold,
    other: ProposalCategory,
)
    requires
        threshold_is_valid(threshold),
    ensures
        m.after_threshold_setting(Ok(()), category, threshold).category_threshold(category) == Some(
            threshold,
        ),
        other != category ==> m.after_threshold_setting(
            Ok(()),
            category,
            threshold,
        ).category_threshold(other) == m.category_threshold(other),
{
    assert(other != category ==> category_key(other) != category_key(category));
}

} // verus!
