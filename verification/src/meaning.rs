//! What each request is for, stated over the records alone.
//!
//! The contracts are put together from spec functions that follow the steps of a request. The
//! statements here use none of those steps: they speak of the records before and after, of what was
//! asked and of what was answered, and so hold the contracts to their purpose.

use vstd::prelude::*;

use crate::collections::amount_of;
use crate::invariants::Request;
use crate::math::{
    clamp_i128, fits_i128, floor_sqrt, floor_sqrt_exists, floor_sqrt_is_unique, total,
};
use crate::state::GovernanceModel;
use crate::types::{
    ActionModel, Address, Asset, CategoryThreshold, EventModel, GovernanceConfig, GovernanceError,
    ProposalCategory, ProposalModel, ProposalStatus, Vote, VoteDelegation, VoteType,
};

verus! {

/// The configuration that the admin has set, or the one that a contract starts with.
pub open spec fn in_force(m: GovernanceModel) -> GovernanceConfig {
    match m.config {
        Some(c) => c,
        None => GovernanceConfig {
            min_proposal_threshold: 1_000,
            voting_period: 604_800,
            voting_delay: 60,
            quorum_threshold: 1_000,
            approval_threshold: 5_000,
            execution_delay: 0,
            discussion_duration: 0,
        },
    }
}

/// What is on the account, nothing where it has no entry.
pub open spec fn entry(accounts: Map<u64, i128>, key: u64) -> int {
    match accounts.get(key) {
        Some(amount) => amount as int,
        None => 0,
    }
}

/// `x` is a value of an `i128`.
pub open spec fn is_i128(x: int) -> bool {
    -0x8000_0000_0000_0000_0000_0000_0000_0000 <= x
        <= 0x7fff_ffff_ffff_ffff_ffff_ffff_ffff_ffff
}

/// `y` is the value of an `i128` that is nearest to `x`.
pub open spec fn is_nearest(x: int, y: int) -> bool {
    &&& is_i128(y)
    &&& is_i128(x) ==> y == x
    &&& x > 0x7fff_ffff_ffff_ffff_ffff_ffff_ffff_ffff ==> y
        == 0x7fff_ffff_ffff_ffff_ffff_ffff_ffff_ffff
    &&& x < -0x8000_0000_0000_0000_0000_0000_0000_0000 ==> y
        == -0x8000_0000_0000_0000_0000_0000_0000_0000
}

/// `t` is `duration` after `start`, or the last time there is where that lies beyond it.
pub open spec fn is_after(t: u64, start: int, duration: u64) -> bool {
    &&& start + duration <= u64::MAX ==> t - start == duration
    &&& start + duration > u64::MAX ==> t == u64::MAX
}

/// `w` is what a recorded power weighs on the proposal: the power itself, or the whole part of its
/// square root where voting is quadratic.
pub open spec fn weighs(p: ProposalModel, power: int, w: int) -> bool {
    if p.use_quadratic_voting {
        w >= 0 && w * w <= power && power < (w + 1) * (w + 1)
    } else {
        w == power
    }
}

/// The power on record for `voter`, if any.
pub open spec fn on_record(m: GovernanceModel, id: u64, voter: Address) -> int {
    match m.snapshots.get(id) {
        Some(powers) => entry(powers, voter),
        None => 0,
    }
}

// Numbers

/// Saturation gives the nearest `i128`.
pub proof fn saturation_gives_the_nearest_value(x: int)
    ensures
        is_nearest(x, clamp_i128(x)),
{
}

/// What an `i128` can hold are the values of an `i128`.
pub proof fn fitting_is_being_a_value(x: int)
    ensures
        fits_i128(x) <==> is_i128(x),
{
}

/// What has no positive power weighs nothing in a quadratic vote.
pub proof fn nothing_weighs_nothing(n: int)
    requires
        n <= 0,
    ensures
        floor_sqrt(n) == 0,
{
}

/// An amount that was never set is zero.
pub proof fn amounts_are_zero_until_set(accounts: Map<u64, i128>, key: u64, amount: i128, other: u64)
    ensures
        amount_of(Map::empty(), key) == 0,
        amount_of(accounts, key) == entry(accounts, key),
        amount_of(accounts.insert(key, amount), key) == amount,
        other != key ==> amount_of(accounts.insert(key, amount), other) == amount_of(
            accounts,
            other,
        ),
{
}

/// The root of a power is the largest number whose square does not exceed it.
pub proof fn roots_are_largest(n: int, r: int)
    requires
        n >= 0,
    ensures
        floor_sqrt(n) >= 0,
        floor_sqrt(n) * floor_sqrt(n) <= n,
        n < (floor_sqrt(n) + 1) * (floor_sqrt(n) + 1),
        r >= 0 && r * r <= n ==> r <= floor_sqrt(n),
{
    floor_sqrt_exists(n);
    let s = floor_sqrt(n);
    if r >= 0 && r * r <= n {
        assert(r <= s) by (nonlinear_arith)
            requires
                r >= 0,
                s >= 0,
                r * r <= n,
                n < (s + 1) * (s + 1),
        ;
    }
}

proof fn lemma_weight(p: ProposalModel, power: i128, w: int)
    requires
        power > 0,
        weighs(p, power as int, w),
    ensures
        p.weight(power) == w,
        1 <= w <= power,
{
    if p.use_quadratic_voting {
        floor_sqrt_is_unique(power as int, w);
        assert(1 <= w <= power) by (nonlinear_arith)
            requires
                power > 0,
                w >= 0,
                w * w <= power,
                power < (w + 1) * (w + 1),
        ;
    }
}

// Configuration and thresholds

/// A configuration is accepted from the admin if proposals take some power, voting takes some time,
/// and the thresholds are shares. It is then in force, and nothing else changes.
pub proof fn configurations_are_judged_by_four_bounds(
    m: GovernanceModel,
    admin_check: Result<(), GovernanceError>,
    config: GovernanceConfig,
)
    ensures
        ({
            let r = m.refusal(Request::Configure { admin_check, config });
            let n = m.after(Request::Configure { admin_check, config });
            let good = config.min_proposal_threshold >= 1 && config.voting_period >= 1
                && config.quorum_threshold < 10_001 && config.approval_threshold < 10_001;
            &&& r is None <==> admin_check is Ok && good
            &&& admin_check matches Err(e) ==> r == Some(e)
            &&& admin_check is Ok && !good ==> r == Some(GovernanceError::InvalidGovernanceConfig)
            &&& r is None ==> n == (GovernanceModel { config: Some(config), ..m }) && n.rules()
                == config
            &&& r is Some ==> n == m
        }),
{
}

/// The configuration in force is the one that was set, or the initial one.
pub proof fn the_configuration_in_force_is_the_one_set(m: GovernanceModel)
    ensures
        m.rules() == in_force(m),
{
}

/// Thresholds that the admin sets for a category, if they are shares, are read back and used for it,
/// zero for the global one, and leave every other category as it was.
pub proof fn thresholds_that_are_set_are_used(
    m: GovernanceModel,
    admin_check: Result<(), GovernanceError>,
    category: ProposalCategory,
    threshold: CategoryThreshold,
    other: ProposalCategory,
    global: GovernanceConfig,
)
    ensures
        ({
            let request = Request::SetThresholds { admin_check, category, threshold };
            let r = m.refusal(request);
            let n = m.after(request);
            let good = threshold.quorum_bps < 10_001 && threshold.supermajority_bps < 10_001;
            let (quorum, approval) = n.thresholds_for(category, global);
            &&& r is None <==> admin_check is Ok && good
            &&& admin_check matches Err(e) ==> r == Some(e)
            &&& admin_check is Ok && !good ==> r == Some(GovernanceError::InvalidGovernanceConfig)
            &&& r is Some ==> n == m
            &&& n == (GovernanceModel { thresholds: n.thresholds, ..m })
            &&& r is None ==> {
                &&& n.category_threshold(category) == Some(threshold)
                &&& threshold.quorum_bps != 0 ==> quorum == threshold.quorum_bps
                &&& threshold.quorum_bps == 0 ==> quorum == global.quorum_threshold
                &&& threshold.supermajority_bps != 0 ==> approval == threshold.supermajority_bps
                &&& threshold.supermajority_bps == 0 ==> approval == global.approval_threshold
                &&& other != category ==> n.category_threshold(other) == m.category_threshold(other)
                &&& other != category ==> n.thresholds_for(other, global) == m.thresholds_for(
                    other,
                    global,
                )
            }
        }),
{
}

/// Each category has an entry of its own, and a threshold in it that is not zero takes the place of
/// the global one.
pub proof fn thresholds_are_looked_up_by_category(
    m: GovernanceModel,
    category: ProposalCategory,
    global: GovernanceConfig,
)
    ensures
        ({
            let set = m.thresholds.get(
                match category {
                    ProposalCategory::ParameterChange => 0u32,
                    ProposalCategory::ContractUpgrade => 1u32,
                    ProposalCategory::TreasuryTransfer => 2u32,
                    ProposalCategory::General => 3u32,
                },
            );
            let (quorum, approval) = m.thresholds_for(category, global);
            &&& m.category_threshold(category) == set
            &&& quorum == if set is Some && set->0.quorum_bps >= 1 {
                set->0.quorum_bps
            } else {
                global.quorum_threshold
            }
            &&& approval == if set is Some && set->0.supermajority_bps >= 1 {
                set->0.supermajority_bps
            } else {
                global.approval_threshold
            }
        }),
{
}

/// Where the admin has set no thresholds, none are read back and the global ones are used.
pub proof fn without_thresholds_the_global_ones_are_used(
    m: GovernanceModel,
    category: ProposalCategory,
    global: GovernanceConfig,
)
    requires
        m.thresholds == Map::<u32, CategoryThreshold>::empty(),
    ensures
        m.category_threshold(category) is None,
        m.thresholds_for(category, global) == (global.quorum_threshold, global.approval_threshold),
{
}

// Actions and payloads

/// A named parameter that is positive can go to any value strictly between half and one and a half
/// times what it is; one that is not positive can go anywhere. What cannot be doubled is an overflow.
pub proof fn positive_parameters_change_by_less_than_half(
    m: GovernanceModel,
    name: Seq<u8>,
    current: i128,
    proposed: i128,
)
    ensures
        ({
            let r = m.action_refusal(ActionModel::ParameterChange(name, current, proposed));
            &&& r is None <==> name.len() != 0 && (current > 0 ==> current < 2 * proposed < 3
                * current)
            &&& r == Some(GovernanceError::ArithmeticOverflow) <==> name.len() != 0 && current > 0
                && !(is_i128(2 * (proposed - current)) && is_i128(2 * (current - proposed)))
            &&& r is Some && r != Some(GovernanceError::ArithmeticOverflow) ==> r == Some(
                GovernanceError::InvalidProposal,
            )
        }),
{
}

/// A payment can be proposed if it is positive and ten times it is covered by the treasury, where
/// ten times it is taken to be the largest `i128` if it lies beyond.
pub proof fn payments_are_covered_tenfold(
    m: GovernanceModel,
    recipient: Address,
    amount: i128,
    asset: Asset,
    purpose: Seq<u8>,
)
    ensures
        ({
            let r = m.action_refusal(ActionModel::TreasurySpend(recipient, amount, asset, purpose));
            let held = entry(m.treasury, asset);
            &&& r is None <==> amount >= 1 && (10 * amount <= held || held
                == 0x7fff_ffff_ffff_ffff_ffff_ffff_ffff_ffff)
            &&& r is Some ==> r == Some(GovernanceError::BudgetExceeded)
        }),
{
}

/// An upgrade names a hash of 32 bytes; switching features, signals and custom actions are not
/// restricted.
pub proof fn other_actions_are_proposed_freely(
    m: GovernanceModel,
    name: Seq<u8>,
    hash: Seq<u8>,
    enabled: bool,
    account: Address,
)
    ensures
        m.action_refusal(ActionModel::ContractUpgrade(name, hash)) == if hash.len() == 32 {
            None
        } else {
            Some(GovernanceError::InvalidProposal)
        },
        m.action_refusal(ActionModel::FeatureToggle(name, enabled)) is None,
        m.action_refusal(ActionModel::SignalProposal(name)) is None,
        m.action_refusal(ActionModel::Custom(account)) is None,
{
}

/// Whether a payload is one for the action.
pub open spec fn payload_is_for(action: ActionModel, payload: Seq<u8>) -> bool {
    &&& action is ContractUpgrade ==> payload.len() == 32
    &&& action is Custom ==> payload.len() != 0
    &&& (action is TreasurySpend || action is ParameterChange) && payload.len() != 0
        ==> payload.first() == 0x01
}

/// A payload is judged by its length for upgrades and custom actions, by its first byte for payments
/// and parameters, and not at all for the rest.
pub proof fn payloads_are_judged_by_length_or_version(action: ActionModel, payload: Seq<u8>)
    ensures
        crate::validation::payload_fits(action, payload) <==> payload_is_for(action, payload),
{
}

// Voting power

/// What `account` was lent, added up over the delegators as they are listed.
pub open spec fn borrowed(m: GovernanceModel, account: Address, delegators: Seq<Address>) -> int
    decreases delegators.len(),
{
    if delegators.len() == 0 {
        0
    } else {
        let before = borrowed(m, account, delegators.drop_last());
        match m.delegations.get(delegators.last()) {
            Some(d) => if d.active && d.delegate == account {
                before + d.delegated_power
            } else {
                before
            },
            None => before,
        }
    }
}

proof fn lemma_borrowed(m: GovernanceModel, account: Address, k: int)
    requires
        0 <= k <= m.delegators.len(),
        forall|a: Address| #[trigger]
            m.delegations.contains_key(a) ==> m.delegations[a].delegated_power >= 0,
    ensures
        borrowed(m, account, m.delegators.take(k)) >= 0,
        crate::math::saturating_total(m.received(account).take(k)) == clamp_i128(
            borrowed(m, account, m.delegators.take(k)),
        ),
    decreases k,
{
    let received = m.received(account);
    if k > 0 {
        lemma_borrowed(m, account, k - 1);
        assert(m.delegators.take(k).drop_last() =~= m.delegators.take(k - 1));
        assert(received.take(k).drop_last() =~= received.take(k - 1));
        assert(received.take(k).last() == m.lent(m.delegators[k - 1], account));
    }
}

/// The power of an account is what it has staked, nothing of which counts while it is lent out, and
/// what it has borrowed, in whole, at most what an `i128` can hold.
pub proof fn power_is_stake_and_loans(m: GovernanceModel, account: Address, loans: int, power: int)
    requires
        forall|a: Address| #[trigger]
            m.delegations.contains_key(a) ==> m.delegations[a].delegated_power >= 0,
        is_nearest(borrowed(m, account, m.delegators), loans),
        is_nearest(
            loans + match m.delegations.get(account) {
                Some(d) => if d.active {
                    0
                } else {
                    entry(m.staked, account)
                },
                None => entry(m.staked, account),
            },
            power,
        ),
    ensures
        m.effective_power(account) == power,
{
    lemma_borrowed(m, account, m.delegators.len() as int);
    assert(m.delegators.take(m.delegators.len() as int) =~= m.delegators);
    assert(m.received(account).take(m.delegators.len() as int) =~= m.received(account));
}

/// Any account with a stake of its own that it has not lent out can lend it to any other account,
/// whatever that has staked, lent or borrowed; nobody else can.
pub proof fn anybody_with_a_stake_can_lend_it_to_anybody_else(
    m: GovernanceModel,
    delegator: Address,
    delegate: Address,
)
    ensures
        ({
            let r = m.refusal(Request::Delegate { delegator, delegate });
            let lent_out = exists|d: VoteDelegation|
                m.delegations.get(delegator) == Some(d) && #[trigger] d.active;
            &&& r is None <==> delegator != delegate && !lent_out && entry(m.staked, delegator) > 0
            &&& delegator == delegate ==> r == Some(GovernanceError::InvalidProposal)
            &&& delegator != delegate && lent_out ==> r == Some(
                GovernanceError::InvalidCommitteeAction,
            )
            &&& delegator != delegate && !lent_out && entry(m.staked, delegator) <= 0 ==> r == Some(
                GovernanceError::NoVotingPower,
            )
            &&& r == m.delegation_refusal(delegator, delegate)
        }),
{
    if m.delegations.contains_key(delegator) {
        assert(m.delegations.get(delegator) == Some(m.delegations[delegator]));
    }
}

/// Whom one lends to does not matter for being allowed to lend.
pub proof fn the_delegate_is_of_no_account(
    m: GovernanceModel,
    delegator: Address,
    one: Address,
    another: Address,
)
    requires
        one != delegator,
        another != delegator,
    ensures
        m.refusal(Request::Delegate { delegator, delegate: one }) == m.refusal(
            Request::Delegate { delegator, delegate: another },
        ),
{
}

/// Lending records the present stake as an active delegation and lists the delegator once; no other
/// record changes.
pub proof fn lending_records_the_stake(m: GovernanceModel, delegator: Address, delegate: Address)
    requires
        m.refusal(Request::Delegate { delegator, delegate }) is None,
    ensures
        ({
            let n = m.after(Request::Delegate { delegator, delegate });
            &&& n == (GovernanceModel {
                delegations: n.delegations,
                delegators: n.delegators,
                auths: m.auths.push(delegator),
                ..m
            })
            &&& n.delegations.contains_key(delegator)
            &&& n.delegations[delegator].delegator == delegator
            &&& n.delegations[delegator].delegate == delegate
            &&& n.delegations[delegator].delegated_power == entry(m.staked, delegator)
            &&& n.delegations[delegator].active
            &&& n.delegations.remove(delegator) == m.delegations.remove(delegator)
            &&& m.delegators.contains(delegator) ==> n.delegators == m.delegators
            &&& !m.delegators.contains(delegator) ==> n.delegators == m.delegators + seq![delegator]
        }),
{
    let n = m.after(Request::Delegate { delegator, delegate });
    assert(n.delegations.remove(delegator) =~= m.delegations.remove(delegator));
    assert(m.delegators.push(delegator) =~= m.delegators + seq![delegator]);
}

/// Taking power back ends the delegation, which stays on record otherwise unchanged; it is answered
/// with an error only where nothing was ever lent.
pub proof fn taking_back_ends_the_delegation(m: GovernanceModel, delegator: Address)
    ensures
        ({
            let r = m.refusal(Request::Undelegate { delegator });
            let n = m.after(Request::Undelegate { delegator });
            &&& r == if m.delegations.dom().contains(delegator) {
                None
            } else {
                Some(GovernanceError::CrossCommitteeRequestNotFound)
            }
            &&& n == (GovernanceModel {
                delegations: n.delegations,
                auths: m.auths.push(delegator),
                ..m
            })
            &&& r is Some ==> n.delegations == m.delegations
            &&& r is None ==> {
                &&& n.delegations.contains_key(delegator)
                &&& !n.delegations[delegator].active
                &&& n.delegations[delegator].delegator == m.delegations[delegator].delegator
                &&& n.delegations[delegator].delegate == m.delegations[delegator].delegate
                &&& n.delegations[delegator].delegated_power
                    == m.delegations[delegator].delegated_power
                &&& n.delegations.remove(delegator) == m.delegations.remove(delegator)
            }
        }),
{
    let n = m.after(Request::Undelegate { delegator });
    assert(n.delegations.remove(delegator) =~= m.delegations.remove(delegator));
}

// Creation

/// A proposal is created for whoever has the power that the configuration in force asks for, with
/// texts that were let through, an action that can be proposed and a payload for it. Each reason to
/// refuse has its answer.
pub proof fn creation_takes_texts_power_an_action_and_a_payload(
    m: GovernanceModel,
    proposer: Address,
    action: ActionModel,
    title: Seq<u8>,
    description: Seq<u8>,
    payload: Seq<u8>,
    title_clean: bool,
    description_clean: bool,
)
    ensures
        ({
            let r = m.creation_refusal(
                proposer,
                action,
                title,
                description,
                payload,
                title_clean,
                description_clean,
            );
            let early = m.early_creation_refusal(
                proposer,
                title,
                description,
                title_clean,
                description_clean,
            );
            let texts = title.len() != 0 && description.len() != 0 && title_clean
                && description_clean;
            let power = m.effective_power(proposer) >= in_force(m).min_proposal_threshold;
            &&& early is None <==> texts && power
            &&& early is Some ==> r == early
            &&& !texts ==> r == Some(GovernanceError::InvalidProposal)
            &&& texts && !power ==> r == Some(GovernanceError::NoVotingPower)
            &&& r is None <==> texts && power && m.action_refusal(action) is None && payload_is_for(
                action,
                payload,
            )
            &&& texts && power && m.action_refusal(action) is Some ==> r == m.action_refusal(action)
            &&& texts && power && m.action_refusal(action) is None && r is Some ==> r == Some(
                GovernanceError::InvalidProposal,
            )
        }),
{
    payloads_are_judged_by_length_or_version(action, payload);
}

/// The timetable of a new proposal: votes open the configured delay after its creation and close the
/// configured period after that; a discussion, where one is configured, ends the configured duration
/// after the creation.
pub proof fn timetables_follow_the_configuration(
    m: GovernanceModel,
    now: u64,
    proposer: Address,
    action: ActionModel,
    title: Seq<u8>,
    description: Seq<u8>,
    payload: Seq<u8>,
    category: ProposalCategory,
    quadratic: bool,
)
    requires
        m.creation_refusal(proposer, action, title, description, payload, true, true) is None,
    ensures
        ({
            let n = m.after_creation(
                now,
                proposer,
                action,
                title,
                description,
                payload,
                category,
                quadratic,
                true,
                true,
            );
            let p = n.proposals[m.next_proposal_id];
            let c = in_force(m);
            &&& is_after(p.voting_starts, now as int, c.voting_delay)
            &&& is_after(p.voting_ends, p.voting_starts as int, c.voting_period)
            &&& c.discussion_duration == 0 ==> p.discussion_ends_at == 0
            &&& c.discussion_duration != 0 ==> is_after(
                p.discussion_ends_at,
                now as int,
                c.discussion_duration,
            )
        }),
{
}

/// Under every configuration that is accepted, voting on a proposal that is created next takes
/// exactly the voting period of that configuration, unless a `u64` cannot hold its end.
pub proof fn accepted_configurations_set_the_voting_period(
    m: GovernanceModel,
    config: GovernanceConfig,
    now: u64,
    proposer: Address,
    action: ActionModel,
    title: Seq<u8>,
    description: Seq<u8>,
    payload: Seq<u8>,
    category: ProposalCategory,
    quadratic: bool,
)
    requires
        m.refusal(Request::Configure { admin_check: Ok(()), config }) is None,
        now + config.voting_delay + config.voting_period <= u64::MAX,
    ensures
        ({
            let c = m.after(Request::Configure { admin_check: Ok(()), config });
            let n = c.after_creation(
                now,
                proposer,
                action,
                title,
                description,
                payload,
                category,
                quadratic,
                true,
                true,
            );
            let p = n.proposals[m.next_proposal_id];
            c.creation_refusal(proposer, action, title, description, payload, true, true) is None
                ==> {
                &&& p.voting_starts == now + config.voting_delay
                &&& p.voting_ends - p.voting_starts == config.voting_period
            }
        }),
{
}

/// A new proposal says what was proposed, by whom and how it is to be counted, and has no votes yet.
/// It is stored and listed under the next number, and announced with its timetable; the next number
/// moves on. Nothing else changes but the powers on record.
pub proof fn new_proposals_say_what_was_proposed(
    m: GovernanceModel,
    now: u64,
    proposer: Address,
    action: ActionModel,
    title: Seq<u8>,
    description: Seq<u8>,
    payload: Seq<u8>,
    category: ProposalCategory,
    quadratic: bool,
)
    requires
        m.creation_refusal(proposer, action, title, description, payload, true, true) is None,
    ensures
        ({
            let n = m.after_creation(
                now,
                proposer,
                action,
                title,
                description,
                payload,
                category,
                quadratic,
                true,
                true,
            );
            let id = m.next_proposal_id;
            let p = n.proposals[id];
            &&& n == (GovernanceModel {
                proposals: m.proposals.insert(id, p),
                proposal_ids: m.proposal_ids + seq![id],
                next_proposal_id: n.next_proposal_id,
                snapshots: m.snapshots.insert(id, n.snapshots[id]),
                auths: m.auths + seq![proposer],
                events: m.events + seq![
                    EventModel::ProposalCreated {
                        id,
                        proposer,
                        discussion_ends_at: p.discussion_ends_at,
                        voting_starts: p.voting_starts,
                        voting_ends: p.voting_ends,
                    },
                ],
                ..m
            })
            &&& is_after(n.next_proposal_id, id as int, 1)
            &&& p.id == id
            &&& p.proposer == proposer
            &&& p.action == action
            &&& p.title == title
            &&& p.description == description
            &&& p.execution_payload == payload
            &&& p.category == category
            &&& p.use_quadratic_voting == quadratic
            &&& p.votes_for == 0 && p.votes_against == 0 && p.votes_abstain == 0
            &&& p.status == ProposalStatus::Pending
            &&& p.voters == Map::<Address, Vote>::empty()
            &&& p.voter_list.len() == 0
            &&& p.executed_at is None
        }),
{
    let n = m.after_creation(
        now,
        proposer,
        action,
        title,
        description,
        payload,
        category,
        quadratic,
        true,
        true,
    );
    let id = m.next_proposal_id;
    assert(n.proposal_ids =~= m.proposal_ids + seq![id]);
    assert(n.auths =~= m.auths + seq![proposer]);
    assert(n.events =~= m.events + seq![n.events.last()]);
}

/// For a new proposal, the powers of exactly those holders that have any are put on record, and where
/// voting is quadratic their weights are added up, to at most what an `i128` can hold.
pub proof fn new_proposals_record_powers_and_their_roots(
    m: GovernanceModel,
    now: u64,
    proposer: Address,
    action: ActionModel,
    title: Seq<u8>,
    description: Seq<u8>,
    payload: Seq<u8>,
    category: ProposalCategory,
    quadratic: bool,
    account: Address,
    weights: Seq<int>,
)
    requires
        m.creation_refusal(proposer, action, title, description, payload, true, true) is None,
        weights.len() == m.holders.len(),
        forall|i: int|
            0 <= i < weights.len() ==> {
                let power = m.effective_power(m.holders[i]);
                let w = #[trigger] weights[i];
                if power > 0 {
                    w >= 0 && w * w <= power && power < (w + 1) * (w + 1)
                } else {
                    w == 0
                }
            },
    ensures
        ({
            let n = m.after_creation(
                now,
                proposer,
                action,
                title,
                description,
                payload,
                category,
                quadratic,
                true,
                true,
            );
            let powers = n.snapshots[m.next_proposal_id];
            let supply = n.proposals[m.next_proposal_id].quadratic_total_supply;
            &&& powers.contains_key(account) <==> m.holders.contains(account)
                && m.effective_power(account) > 0
            &&& powers.contains_key(account) ==> powers[account] == m.effective_power(account)
            &&& quadratic ==> is_nearest(
                weights.fold_left(0int, |sum: int, w: int| sum + w),
                supply as int,
            )
            &&& !quadratic ==> supply == 0
        }),
{
    let d = m.demanding(proposer);
    crate::proposals::lemma_snapshot_frame(m, d);
    assert forall|i: int| 0 <= i < weights.len() implies #[trigger] weights[i]
        == m.quadratic_weights()[i] by {
        let power = m.effective_power(m.holders[i]);
        if power > 0 {
            floor_sqrt_is_unique(power, weights[i]);
        }
    }
    assert(weights =~= m.quadratic_weights());
    lemma_total_is_a_fold(weights);
}

/// Adding up is folding with `+`.
pub proof fn lemma_total_is_a_fold(terms: Seq<int>)
    ensures
        total(terms) == terms.fold_left(0int, |sum: int, x: int| sum + x),
    decreases terms.len(),
{
    if terms.len() > 0 {
        lemma_total_is_a_fold(terms.drop_last());
    }
}

/// A refused creation leaves nothing but the demand for the proposer's authorization.
pub proof fn refused_creations_leave_nothing(
    m: GovernanceModel,
    now: u64,
    proposer: Address,
    action: ActionModel,
    title: Seq<u8>,
    description: Seq<u8>,
    payload: Seq<u8>,
    category: ProposalCategory,
    quadratic: bool,
    title_clean: bool,
    description_clean: bool,
)
    requires
        m.creation_refusal(
            proposer,
            action,
            title,
            description,
            payload,
            title_clean,
            description_clean,
        ) is Some,
    ensures
        m.after_creation(
            now,
            proposer,
            action,
            title,
            description,
            payload,
            category,
            quadratic,
            title_clean,
            description_clean,
        ) == (GovernanceModel { auths: m.auths.push(proposer), ..m }),
{
}

/// A stored proposal is replaced by one with the same number unless it was withdrawn.
pub proof fn proposals_are_replaced_by_number(m: GovernanceModel, p: ProposalModel)
    ensures
        ({
            let r = m.replacement_refusal(p.id);
            let n = m.after_replacement(p);
            &&& !m.proposals.dom().contains(p.id) ==> r == Some(GovernanceError::ProposalNotFound)
            &&& m.proposals.dom().contains(p.id) && m.proposals[p.id].status
                == ProposalStatus::Withdrawn ==> r == Some(
                GovernanceError::ProposalAlreadyWithdrawn,
            )
            &&& m.proposals.dom().contains(p.id) && m.proposals[p.id].status
                != ProposalStatus::Withdrawn ==> r is None
            &&& r is Some ==> n == m
            &&& r is None ==> n == (GovernanceModel { proposals: m.proposals.insert(p.id, p), ..m })
        }),
{
}

/// The listing is what the listed numbers stand for, number by number, without those that stand for
/// nothing.
pub proof fn listings_follow_the_numbers(m: GovernanceModel)
    ensures
        m.listed_proposals() == m.proposal_ids.filter(
            |id: u64| m.proposals.contains_key(id),
        ).map_values(|id: u64| m.proposals[id]),
{
    lemma_listing(m, m.proposal_ids);
}

proof fn lemma_listing(m: GovernanceModel, ids: Seq<u64>)
    ensures
        crate::proposals::proposals_at(m.proposals, ids) == ids.filter(
            |id: u64| m.proposals.contains_key(id),
        ).map_values(|id: u64| m.proposals[id]),
    decreases ids.len(),
{
    reveal(Seq::filter);
    let keep = |id: u64| m.proposals.contains_key(id);
    let get = |id: u64| m.proposals[id];
    if ids.len() > 0 {
        lemma_listing(m, ids.drop_last());
        let first = ids.drop_last().filter(keep);
        if keep(ids.last()) {
            assert(first.push(ids.last()).map_values(get) =~= first.map_values(get).push(
                get(ids.last()),
            ));
        }
    }
    assert(crate::proposals::proposals_at(m.proposals, ids) =~= ids.filter(keep).map_values(get));
}

// Votes

/// A vote is accepted after the discussion, within the voting period, while the proposal is pending
/// or active, once from everybody with a power on record, as long as the tally can hold it. Each
/// reason to refuse has its answer.
pub proof fn votes_are_accepted_in_time_once_with_power(
    m: GovernanceModel,
    now: u64,
    id: u64,
    voter: Address,
    kind: VoteType,
    w: int,
)
    requires
        m.proposals.contains_key(id) ==> m.proposals[id].id == id,
        on_record(m, id, voter) > 0 ==> weighs(m.proposals[id], on_record(m, id, voter), w),
    ensures
        ({
            let r = m.vote_refusal(now, id, voter, kind);
            let p = m.proposals[id];
            let known = m.proposals.dom().contains(id);
            let discussed = known && p.discussion_ends_at <= now;
            let started = discussed && p.voting_starts <= now;
            let timely = started && now < p.voting_ends;
            let open = timely && (p.status is Pending || p.status is Active);
            let new = open && !p.voters.dom().contains(voter);
            let powerful = new && on_record(m, id, voter) > 0;
            let so_far = match kind {
                VoteType::For => p.votes_for,
                VoteType::Against => p.votes_against,
                VoteType::Abstain => p.votes_abstain,
            };
            &&& r is None <==> powerful && is_i128(so_far + w)
            &&& !known ==> r == Some(GovernanceError::ProposalNotFound)
            &&& known && !discussed ==> r == Some(GovernanceError::DiscussionPeriodActive)
            &&& discussed && !started ==> r == Some(GovernanceError::VotingNotStarted)
            &&& started && !timely ==> r == Some(GovernanceError::VotingEnded)
            &&& timely && !open ==> r == Some(GovernanceError::ProposalNotActive)
            &&& open && !new ==> r == Some(GovernanceError::AlreadyVoted)
            &&& new && !powerful ==> r == Some(GovernanceError::NoVotingPower)
            &&& powerful && r is Some ==> r == Some(GovernanceError::ArithmeticOverflow)
            &&& r is Some ==> m.after_vote(now, id, voter, kind) == (GovernanceModel {
                auths: m.auths.push(voter),
                ..m
            })
        }),
{
    if on_record(m, id, voter) > 0 {
        lemma_weight(m.proposals[id], m.recorded_power(id, voter), w);
    }
}

/// An accepted vote is recorded with its time and its weight, raises the tally of its kind by that
/// weight and no other, and makes the proposal active. The first one after a discussion announces
/// its end. Nothing else changes.
pub proof fn accepted_votes_are_recorded_and_counted(
    m: GovernanceModel,
    now: u64,
    id: u64,
    voter: Address,
    kind: VoteType,
    w: int,
)
    requires
        m.vote_refusal(now, id, voter, kind) is None,
        m.proposals[id].id == id,
        weighs(m.proposals[id], on_record(m, id, voter), w),
    ensures
        ({
            let n = m.after_vote(now, id, voter, kind);
            let p = m.proposals[id];
            let q = n.proposals[id];
            &&& n == (GovernanceModel {
                proposals: m.proposals.insert(id, q),
                auths: m.auths.push(voter),
                events: n.events,
                ..m
            })
            &&& q == (ProposalModel {
                votes_for: q.votes_for,
                votes_against: q.votes_against,
                votes_abstain: q.votes_abstain,
                status: ProposalStatus::Active,
                voters: q.voters,
                voter_list: p.voter_list.push(voter),
                ..p
            })
            &&& q.voters.remove(voter) == p.voters.remove(voter)
            &&& q.voters.contains_key(voter)
            &&& q.voters[voter].voter == voter
            &&& q.voters[voter].vote_type == kind
            &&& q.voters[voter].voting_power == w
            &&& q.voters[voter].timestamp == now
            &&& q.votes_for - p.votes_for == if kind is For {
                w
            } else {
                0
            }
            &&& q.votes_against - p.votes_against == if kind is Against {
                w
            } else {
                0
            }
            &&& q.votes_abstain - p.votes_abstain == if kind is Abstain {
                w
            } else {
                0
            }
            &&& p.discussion_ends_at != 0 && p.voter_list.len() == 0 ==> n.events == m.events.push(
                EventModel::DiscussionEnded { id, discussion_ends_at: p.discussion_ends_at, now },
            )
            &&& p.discussion_ends_at == 0 || p.voter_list.len() != 0 ==> n.events == m.events
        }),
{
    lemma_weight(m.proposals[id], m.recorded_power(id, voter), w);
    let n = m.after_vote(now, id, voter, kind);
    assert(n.proposals[id].voters.remove(voter) =~= m.proposals[id].voters.remove(voter));
}

// Decisions

/// The quorum and the approval threshold for a category: what the admin has set for it, else the
/// global one.
pub open spec fn required_shares(m: GovernanceModel, category: ProposalCategory) -> (int, int) {
    let key: u32 = match category {
        ProposalCategory::ParameterChange => 0,
        ProposalCategory::ContractUpgrade => 1,
        ProposalCategory::TreasuryTransfer => 2,
        ProposalCategory::General => 3,
    };
    let c = in_force(m);
    match m.thresholds.get(key) {
        Some(t) => (
            if t.quorum_bps == 0 {
                c.quorum_threshold as int
            } else {
                t.quorum_bps as int
            },
            if t.supermajority_bps == 0 {
                c.approval_threshold as int
            } else {
                t.supermajority_bps as int
            },
        ),
        None => (c.quorum_threshold as int, c.approval_threshold as int),
    }
}

/// Where voting is quadratic and a quadratic supply is on record, the token supply is of no account:
/// states that differ in it refuse the same decisions, take the same ones and go on alike.
pub proof fn quadratic_decisions_ignore_the_token_supply(
    m: GovernanceModel,
    now: u64,
    id: u64,
    supply: Result<i128, GovernanceError>,
)
    requires
        m.proposals[id].use_quadratic_voting,
        m.proposals[id].quadratic_total_supply > 0,
    ensures
        ({
            let o = GovernanceModel { total_supply: supply, ..m };
            &&& o.finalization_refusal(now, id) == m.finalization_refusal(now, id)
            &&& o.decision(m.proposals[id]) == m.decision(m.proposals[id])
            &&& o.after_finalization(now, id) == (GovernanceModel {
                total_supply: supply,
                ..m.after_finalization(now, id)
            })
        }),
{
    let o = GovernanceModel { total_supply: supply, ..m };
    assert(o.after_finalization(now, id) =~= (GovernanceModel {
        total_supply: supply,
        ..m.after_finalization(now, id)
    }));
}

/// A quadratic vote succeeds exactly if its votes reach the required share of the quadratic supply,
/// and the votes for reach the required share of those for and against.
pub proof fn quadratic_decisions_are_shares_of_the_quadratic_supply(
    m: GovernanceModel,
    now: u64,
    id: u64,
)
    requires
        m.finalization_refusal(now, id) is None,
        m.proposals[id].use_quadratic_voting,
        m.proposals[id].quadratic_total_supply > 0,
        shares_are_exact(m, m.proposals[id], m.proposals[id].quadratic_total_supply as int),
    ensures
        m.decision(m.proposals[id]) == if reaches(
            m,
            m.proposals[id],
            m.proposals[id].quadratic_total_supply as int,
        ) {
            ProposalStatus::Succeeded
        } else {
            ProposalStatus::Failed
        },
{
    lemma_decision(m, m.proposals[id], m.proposals[id].quadratic_total_supply);
}

/// A vote that is not quadratic, or has no quadratic supply on record, succeeds exactly if its votes
/// reach the required share of the token supply, and the votes for reach the required share of those
/// for and against.
pub proof fn linear_decisions_are_shares_of_the_token_supply(m: GovernanceModel, now: u64, id: u64)
    requires
        m.finalization_refusal(now, id) is None,
        !m.proposals[id].use_quadratic_voting || m.proposals[id].quadratic_total_supply <= 0,
        m.total_supply is Ok ==> shares_are_exact(
            m,
            m.proposals[id],
            m.total_supply->Ok_0 as int,
        ),
    ensures
        m.total_supply is Ok,
        m.total_supply->Ok_0 > 0,
        m.decision(m.proposals[id]) == if reaches(
            m,
            m.proposals[id],
            m.total_supply->Ok_0 as int,
        ) {
            ProposalStatus::Succeeded
        } else {
            ProposalStatus::Failed
        },
{
    lemma_decision(m, m.proposals[id], m.total_supply->Ok_0);
}

/// The votes reach the required shares, the quorum one of `supply`.
pub open spec fn reaches(m: GovernanceModel, p: ProposalModel, supply: int) -> bool {
    let (quorum, approval) = required_shares(m, p.category);
    &&& (p.votes_for + p.votes_against + p.votes_abstain) * 10_000 >= supply * quorum
    &&& p.votes_for + p.votes_against > 0
    &&& p.votes_for * 10_000 >= (p.votes_for + p.votes_against) * approval
}

/// No tally is negative, and an `i128` can hold what is compared.
pub open spec fn shares_are_exact(m: GovernanceModel, p: ProposalModel, supply: int) -> bool {
    let (quorum, approval) = required_shares(m, p.category);
    &&& p.votes_for >= 0 && p.votes_against >= 0 && p.votes_abstain >= 0
    &&& is_i128((p.votes_for + p.votes_against + p.votes_abstain) * 10_000)
    &&& is_i128(supply * quorum)
    &&& is_i128((p.votes_for + p.votes_against) * approval)
}

proof fn lemma_shares(m: GovernanceModel, category: ProposalCategory)
    ensures
        m.thresholds_for(category, m.rules()).0 == required_shares(m, category).0,
        m.thresholds_for(category, m.rules()).1 == required_shares(m, category).1,
{
}

proof fn lemma_decision(m: GovernanceModel, p: ProposalModel, supply: i128)
    requires
        m.reference_supply(p) == Ok::<i128, GovernanceError>(supply),
        supply > 0,
        shares_are_exact(m, p, supply as int),
    ensures
        m.decision(p) == if reaches(m, p, supply as int) {
            ProposalStatus::Succeeded
        } else {
            ProposalStatus::Failed
        },
{
    let (quorum, approval) = m.thresholds_for(p.category, m.rules());
    lemma_shares(m, p.category);
    crate::laws::thresholds_are_shares(p, supply, quorum, approval);
}

/// Beyond what an `i128` can hold, sums and products count as the nearest value: a decision compares
/// such values, on the same terms.
pub proof fn decisions_beyond_i128_compare_the_nearest_values(
    m: GovernanceModel,
    now: u64,
    id: u64,
    supply: i128,
    cast: int,
    all: int,
    scaled_all: int,
    needed_all: int,
    scaled_for: int,
    needed_for: int,
)
    requires
        m.finalization_refusal(now, id) is None,
        ({
            let p = m.proposals[id];
            let (quorum, approval) = required_shares(m, p.category);
            &&& if p.use_quadratic_voting && p.quadratic_total_supply > 0 {
                supply == p.quadratic_total_supply
            } else {
                m.total_supply == Ok::<i128, GovernanceError>(supply)
            }
            &&& is_nearest(p.votes_for + p.votes_against, cast)
            &&& is_nearest(cast + p.votes_abstain, all)
            &&& is_nearest(all * 10_000, scaled_all)
            &&& is_nearest(supply * quorum, needed_all)
            &&& is_nearest(p.votes_for * 10_000, scaled_for)
            &&& is_nearest(cast * approval, needed_for)
        }),
    ensures
        m.decision(m.proposals[id]) == if scaled_all >= needed_all && cast > 0 && scaled_for
            >= needed_for {
            ProposalStatus::Succeeded
        } else {
            ProposalStatus::Failed
        },
{
    lemma_shares(m, m.proposals[id].category);
}

/// A decision is taken when voting is over, on a proposal that is pending or active, if there is a
/// supply to hold its votes against and, where it fails, the treasury can take its deposit. Each
/// reason to refuse has its answer, and nothing changes then.
pub proof fn decisions_are_taken_after_the_vote(m: GovernanceModel, now: u64, id: u64)
    requires
        m.proposals.contains_key(id) ==> m.proposals[id].id == id,
    ensures
        ({
            let r = m.finalization_refusal(now, id);
            let p = m.proposals[id];
            let known = m.proposals.dom().contains(id);
            let over = known && p.voting_ends <= now;
            let open = over && (p.status is Pending || p.status is Active);
            let own_supply = p.use_quadratic_voting && p.quadratic_total_supply > 0;
            let supplied = open && (own_supply || (m.total_supply is Ok && m.total_supply->Ok_0
                > 0));
            let forfeits = m.decision(p) is Failed && m.locked_deposits.dom().contains(id)
                && m.locked_deposits[id].1 > 0;
            let taken = entry(m.treasury, m.deposit_asset) + m.locked_deposits[id].1;
            &&& r is None <==> supplied && (forfeits ==> is_i128(taken))
            &&& !known ==> r == Some(GovernanceError::ProposalNotFound)
            &&& known && !over ==> r == Some(GovernanceError::InvalidDuration)
            &&& over && !open ==> r == Some(GovernanceError::ProposalNotActive)
            &&& open && !supplied ==> match m.total_supply {
                Err(e) => r == Some(e),
                Ok(_) => r == Some(GovernanceError::InvalidSupply),
            }
            &&& supplied && r is Some ==> r == Some(GovernanceError::ArithmeticOverflow)
            &&& r is Some ==> m.after_finalization(now, id) == m
        }),
{
}

/// A proposal that fails is stored as failed; its deposit, if any, goes from the lock to the
/// treasury. Nothing else changes.
pub proof fn failures_are_stored_and_cost_the_deposit(m: GovernanceModel, now: u64, id: u64)
    requires
        m.finalization_refusal(now, id) is None,
        m.proposals[id].id == id,
        m.decision(m.proposals[id]) != ProposalStatus::Succeeded,
    ensures
        ({
            let n = m.after_finalization(now, id);
            let p = m.proposals[id];
            let forfeits = m.locked_deposits.dom().contains(id) && m.locked_deposits[id].1 > 0;
            &&& n == (GovernanceModel {
                proposals: m.proposals.insert(
                    id,
                    ProposalModel { status: ProposalStatus::Failed, ..p },
                ),
                treasury: n.treasury,
                locked_deposits: n.locked_deposits,
                ..m
            })
            &&& !forfeits ==> n.treasury == m.treasury && n.locked_deposits == m.locked_deposits
            &&& forfeits ==> {
                &&& n.locked_deposits == m.locked_deposits.remove(id)
                &&& entry(n.treasury, m.deposit_asset) - entry(m.treasury, m.deposit_asset)
                    == m.locked_deposits[id].1
                &&& n.treasury.remove(m.deposit_asset) == m.treasury.remove(m.deposit_asset)
            }
        }),
{
    let n = m.after_finalization(now, id);
    assert(n.treasury.remove(m.deposit_asset) =~= m.treasury.remove(m.deposit_asset));
}

/// A proposal that succeeds is stored as such and an upgrade announced with the time from which it
/// can be carried out. Under a delay that is all; without one it is tried at once to carry the
/// proposal out in the name of its proposer, and it is executed if its action does not fail.
pub proof fn successes_are_stored_and_carried_out(m: GovernanceModel, now: u64, id: u64)
    requires
        m.finalization_refusal(now, id) is None,
        m.proposals[id].id == id,
        m.decision(m.proposals[id]) == ProposalStatus::Succeeded,
    ensures
        ({
            let n = m.after_finalization(now, id);
            let p = m.proposals[id];
            let q = n.proposals[id];
            let at_once = in_force(m).execution_delay == 0;
            let done = at_once && m.action_failure(p.action) is None;
            let carried_out = m.acted(p.action);
            &&& n.proposals == m.proposals.insert(id, q)
            &&& q == (ProposalModel { status: q.status, executed_at: q.executed_at, ..p })
            &&& done ==> q.status is Executed && q.executed_at == Some(now)
            &&& !done ==> q.status is Succeeded && q.executed_at == p.executed_at
            &&& n.auths == if at_once {
                m.auths.push(p.proposer)
            } else {
                m.auths
            }
            &&& match p.action {
                ActionModel::ContractUpgrade(contract, new_hash) => {
                    &&& n.events.len() == m.events.len() + 1
                    &&& n.events.drop_last() == m.events
                    &&& n.events.last() matches EventModel::UpgradeAnnounced {
                        contract: c,
                        new_hash: h,
                        available_after,
                        payload,
                    } && c == contract && h == new_hash && payload == p.execution_payload
                        && is_after(
                        available_after,
                        p.voting_ends as int,
                        in_force(m).execution_delay,
                    )
                },
                _ => n.events == m.events,
            }
            &&& n == (GovernanceModel {
                proposals: n.proposals,
                auths: n.auths,
                events: n.events,
                ..if at_once {
                    carried_out
                } else {
                    m
                }
            })
        }),
{
    let n = m.after_finalization(now, id);
    let p = m.proposals[id];
    if p.action is ContractUpgrade {
        assert(n.events.drop_last() =~= m.events);
    }
    assert(n.proposals =~= m.proposals.insert(id, n.proposals[id]));
}

// Actions carried out

/// After a parameter was changed, reading it gives the proposed value, whatever it was, and every
/// other parameter, and everything else, is as before. It cannot fail.
pub proof fn changed_parameters_read_as_proposed(
    m: GovernanceModel,
    name: Seq<u8>,
    current: i128,
    proposed: i128,
    other: Seq<u8>,
)
    ensures
        ({
            let n = m.acted(ActionModel::ParameterChange(name, current, proposed));
            &&& m.action_failure(ActionModel::ParameterChange(name, current, proposed)) is None
            &&& n == (GovernanceModel { parameters: n.parameters, ..m })
            &&& n.parameters.get(name) == Some(proposed)
            &&& other != name ==> n.parameters.get(other) == m.parameters.get(other)
        }),
{
}

/// After a feature was switched, reading it gives exactly what it was switched to, on or off, and
/// every other feature, and everything else, is as before. It cannot fail.
pub proof fn switched_features_read_as_switched(
    m: GovernanceModel,
    name: Seq<u8>,
    enabled: bool,
    other: Seq<u8>,
)
    ensures
        ({
            let n = m.acted(ActionModel::FeatureToggle(name, enabled));
            &&& m.action_failure(ActionModel::FeatureToggle(name, enabled)) is None
            &&& n == (GovernanceModel { features: n.features, ..m })
            &&& n.features.get(name) == Some(enabled)
            &&& other != name ==> n.features.get(other) == m.features.get(other)
        }),
{
}

/// Switching a feature one way and back leaves it switched back: the last vote counts.
pub proof fn the_last_switch_counts(m: GovernanceModel, name: Seq<u8>, first: bool)
    ensures
        m.acted(ActionModel::FeatureToggle(name, first)).acted(
            ActionModel::FeatureToggle(name, !first),
        ).features.get(name) == Some(!first),
{
}

/// After an upgrade was recorded, the contract has exactly the approved hash, and every other
/// contract, and everything else, is as before. It cannot fail.
pub proof fn recorded_upgrades_read_as_approved(
    m: GovernanceModel,
    name: Seq<u8>,
    hash: Seq<u8>,
    other: Seq<u8>,
)
    ensures
        ({
            let n = m.acted(ActionModel::ContractUpgrade(name, hash));
            &&& m.action_failure(ActionModel::ContractUpgrade(name, hash)) is None
            &&& n == (GovernanceModel { upgrades: n.upgrades, ..m })
            &&& n.upgrades.get(name) == Some(hash)
            &&& other != name ==> n.upgrades.get(other) == m.upgrades.get(other)
        }),
{
}

/// Signals and custom actions change nothing and cannot fail.
pub proof fn signals_and_custom_actions_have_no_effect(
    m: GovernanceModel,
    text: Seq<u8>,
    account: Address,
)
    ensures
        m.acted(ActionModel::SignalProposal(text)) == m,
        m.acted(ActionModel::Custom(account)) == m,
        m.action_failure(ActionModel::SignalProposal(text)) is None,
        m.action_failure(ActionModel::Custom(account)) is None,
{
}

/// A payment is made if the treasury holds the amount and both sums can be held; it then moves
/// exactly the amount from the asset to the recipient. One that the treasury does not cover changes
/// nothing. Everything else is as before in every case.
pub proof fn payments_move_exactly_the_amount(
    m: GovernanceModel,
    recipient: Address,
    amount: i128,
    asset: Asset,
    purpose: Seq<u8>,
)
    ensures
        ({
            let action = ActionModel::TreasurySpend(recipient, amount, asset, purpose);
            let n = m.acted(action);
            let r = m.action_failure(action);
            let held = entry(m.treasury, asset);
            let has = entry(m.balances, recipient);
            let debit = held >= amount && is_i128(held - amount);
            let credit = debit && is_i128(has + amount);
            &&& r is None <==> credit
            &&& held < amount ==> r == Some(GovernanceError::InsufficientBalance)
            &&& held >= amount && !credit ==> r == Some(GovernanceError::ArithmeticOverflow)
            &&& n == (GovernanceModel { treasury: n.treasury, balances: n.balances, ..m })
            &&& held - entry(n.treasury, asset) == if debit {
                amount as int
            } else {
                0
            }
            &&& entry(n.balances, recipient) - has == if credit {
                amount as int
            } else {
                0
            }
            &&& n.treasury.remove(asset) == m.treasury.remove(asset)
            &&& n.balances.remove(recipient) == m.balances.remove(recipient)
        }),
{
    let n = m.acted(ActionModel::TreasurySpend(recipient, amount, asset, purpose));
    assert(n.treasury.remove(asset) =~= m.treasury.remove(asset));
    assert(n.balances.remove(recipient) =~= m.balances.remove(recipient));
}

/// A credit adds exactly the amount to one balance, unless it cannot be held; no other balance, and
/// nothing else, changes.
pub proof fn credits_add_exactly_the_amount(m: GovernanceModel, account: Address, amount: i128)
    ensures
        ({
            let n = m.credited(account, amount);
            let has = entry(m.balances, account);
            &&& m.can_credit(account, amount) <==> is_i128(has + amount)
            &&& entry(n.balances, account) - has == if is_i128(has + amount) {
                amount as int
            } else {
                0
            }
            &&& n.balances.remove(account) == m.balances.remove(account)
            &&& n == (GovernanceModel { balances: n.balances, ..m })
        }),
{
    assert(m.credited(account, amount).balances.remove(account) =~= m.balances.remove(account));
}

/// What a proposal proposes can be carried out by its number, whatever its status.
pub proof fn actions_are_carried_out_by_number(m: GovernanceModel, id: u64)
    ensures
        ({
            let r = m.refusal(Request::Act { id });
            let n = m.after(Request::Act { id });
            &&& !m.proposals.dom().contains(id) ==> r == Some(GovernanceError::ProposalNotFound)
                && n == m
            &&& m.proposals.dom().contains(id) ==> r == m.action_failure(m.proposals[id].action)
                && n == m.acted(m.proposals[id].action)
        }),
{
}

/// A proposal is executed at anybody's request if it has succeeded, the delay after the end of
/// voting is over and its action does not fail; then its action has been carried out and the time
/// is recorded. Each reason to refuse has its answer.
pub proof fn successes_are_executed_after_the_delay(
    m: GovernanceModel,
    now: u64,
    id: u64,
    executor: Address,
    ready: u64,
)
    requires
        m.proposals.contains_key(id) ==> m.proposals[id].id == id,
        is_after(ready, m.proposals[id].voting_ends as int, in_force(m).execution_delay),
    ensures
        ({
            let r = m.refusal(Request::Execute { now, id, executor });
            let n = m.after(Request::Execute { now, id, executor });
            let p = m.proposals[id];
            let known = m.proposals.dom().contains(id);
            let due = known && p.status is Succeeded && ready <= now;
            let demanded = GovernanceModel { auths: m.auths.push(executor), ..m };
            &&& r is None <==> due && m.action_failure(p.action) is None
            &&& !known ==> r == Some(GovernanceError::ProposalNotFound)
            &&& known && !(p.status is Succeeded) ==> r == Some(
                GovernanceError::ProposalNotApproved,
            )
            &&& known && p.status is Succeeded && now < ready ==> r == Some(
                GovernanceError::InvalidDuration,
            )
            &&& due && m.action_failure(p.action) is Some ==> r == m.action_failure(p.action)
            &&& !due ==> n == demanded
            &&& due && r is Some ==> n == demanded.acted(p.action)
            &&& r is None ==> n == (GovernanceModel {
                proposals: m.proposals.insert(
                    id,
                    ProposalModel {
                        status: ProposalStatus::Executed,
                        executed_at: Some(now),
                        ..p
                    },
                ),
                ..demanded.acted(p.action)
            })
        }),
{
}

/// Any proposal that was not withdrawn can be marked as carried out, which records the time and
/// nothing else.
pub proof fn marking_records_the_time(m: GovernanceModel, now: u64, id: u64)
    requires
        m.proposals.contains_key(id) ==> m.proposals[id].id == id,
    ensures
        ({
            let r = m.refusal(Request::MarkExecuted { now, id });
            let n = m.after(Request::MarkExecuted { now, id });
            let p = m.proposals[id];
            let known = m.proposals.dom().contains(id);
            &&& r is None <==> known && !(p.status is Withdrawn)
            &&& !known ==> r == Some(GovernanceError::ProposalNotFound)
            &&& known && p.status is Withdrawn ==> r == Some(
                GovernanceError::ProposalAlreadyWithdrawn,
            )
            &&& r is Some ==> n == m
            &&& r is None ==> n == (GovernanceModel {
                proposals: m.proposals.insert(
                    id,
                    ProposalModel {
                        status: ProposalStatus::Executed,
                        executed_at: Some(now),
                        ..p
                    },
                ),
                ..m
            })
        }),
{
}

// Cancellation and withdrawal

/// The proposer, the admin and the guardian, and nobody else, can cancel a proposal that was neither
/// executed nor withdrawn, once there is an admin. Its status is all that changes. Each reason to
/// refuse has its answer.
pub proof fn proposer_admin_and_guardian_cancel(m: GovernanceModel, id: u64, canceller: Address)
    requires
        m.proposals.contains_key(id) ==> m.proposals[id].id == id,
    ensures
        ({
            let r = m.refusal(Request::Cancel { id, canceller });
            let n = m.after(Request::Cancel { id, canceller });
            let p = m.proposals[id];
            let known = m.proposals.dom().contains(id);
            let ready = known && m.admin is Some;
            let entitled = ready && (canceller == p.proposer || canceller == m.admin->0
                || m.guardian == Some(canceller));
            let demanded = GovernanceModel { auths: m.auths.push(canceller), ..m };
            &&& r is None <==> entitled && !(p.status is Executed) && !(p.status is Withdrawn)
            &&& !known ==> r == Some(GovernanceError::ProposalNotFound)
            &&& known && !ready ==> r == Some(GovernanceError::NotInitialized)
            &&& ready && !entitled ==> r == Some(GovernanceError::Unauthorized)
            &&& entitled && p.status is Executed ==> r == Some(
                GovernanceError::InvalidCommitteeAction,
            )
            &&& entitled && p.status is Withdrawn ==> r == Some(
                GovernanceError::ProposalAlreadyWithdrawn,
            )
            &&& r is Some ==> n == demanded
            &&& r is None ==> n == (GovernanceModel {
                proposals: m.proposals.insert(
                    id,
                    ProposalModel { status: ProposalStatus::Cancelled, ..p },
                ),
                ..demanded
            })
        }),
{
}

/// The proposer, and nobody else, can withdraw a proposal while it is pending, if the balance can
/// hold the deposit that the proposer has locked on it, which is then returned and unlocked. Each
/// reason to refuse has its answer; nothing else changes.
pub proof fn proposers_withdraw_while_pending(
    m: GovernanceModel,
    now: u64,
    id: u64,
    account: Address,
)
    requires
        m.proposals.contains_key(id) ==> m.proposals[id].id == id,
    ensures
        ({
            let r = m.refusal(Request::Withdraw { now, id, account });
            let n = m.after(Request::Withdraw { now, id, account });
            let p = m.proposals[id];
            let known = m.proposals.dom().contains(id);
            let own = known && account == p.proposer;
            let pending = own && p.status is Pending;
            let deposit = m.locked_deposits[id].1;
            let due = m.locked_deposits.dom().contains(id) && m.locked_deposits[id].0 == account
                && deposit > 0;
            let has = entry(m.balances, account);
            &&& r is None <==> pending && (due ==> is_i128(has + deposit))
            &&& !known ==> r == Some(GovernanceError::ProposalNotFound)
            &&& known && !own ==> r == Some(GovernanceError::Unauthorized)
            &&& own && !pending ==> r == Some(GovernanceError::ProposalNotActive)
            &&& pending && r is Some ==> r == Some(GovernanceError::ArithmeticOverflow)
            &&& r is Some ==> n == (GovernanceModel { auths: m.auths.push(account), ..m })
            &&& r is None ==> {
                &&& n == (GovernanceModel {
                    proposals: m.proposals.insert(
                        id,
                        ProposalModel { status: ProposalStatus::Withdrawn, ..p },
                    ),
                    balances: n.balances,
                    locked_deposits: if due {
                        m.locked_deposits.remove(id)
                    } else {
                        m.locked_deposits
                    },
                    auths: m.auths.push(account),
                    events: m.events + if due {
                        seq![
                            EventModel::DepositRefunded { id, proposer: account, amount: deposit },
                            EventModel::ProposalWithdrawn { id, proposer: account, now },
                        ]
                    } else {
                        seq![EventModel::ProposalWithdrawn { id, proposer: account, now }]
                    },
                    ..m
                })
                &&& entry(n.balances, account) - has == if due {
                    deposit as int
                } else {
                    0
                }
                &&& n.balances.remove(account) == m.balances.remove(account)
            }
        }),
{
    let n = m.after(Request::Withdraw { now, id, account });
    assert(n.balances.remove(account) =~= m.balances.remove(account));
    if m.refusal(Request::Withdraw { now, id, account }) is None {
        let e = EventModel::ProposalWithdrawn { id, proposer: account, now };
        if m.deposit_is_due(id, account) {
            let d = EventModel::DepositRefunded {
                id,
                proposer: account,
                amount: m.locked_deposits[id].1,
            };
            assert(n.events =~= m.events + seq![d, e]);
        } else {
            assert(n.events =~= m.events + seq![e]);
        }
    }
}

// Statistics

/// The listed numbers of proposals in the given status.
pub open spec fn numbers_in(m: GovernanceModel, status: ProposalStatus) -> Seq<u64> {
    m.proposal_ids.filter(|id: u64| m.proposals.contains_key(id) && m.proposals[id].status == status)
}

proof fn lemma_count(
    m: GovernanceModel,
    ids: Seq<u64>,
    keep: spec_fn(ProposalModel) -> bool,
    keep_id: spec_fn(u64) -> bool,
)
    requires
        forall|id: u64| #[trigger]
            keep_id(id) <==> m.proposals.contains_key(id) && keep(m.proposals[id]),
    ensures
        crate::proposals::proposals_at(m.proposals, ids).filter(keep).len() == ids.filter(
            keep_id,
        ).len(),
        ids.filter(keep_id).len() <= ids.len(),
    decreases ids.len(),
{
    reveal(Seq::filter);
    if ids.len() > 0 {
        let first = ids.drop_last();
        lemma_count(m, first, keep, keep_id);
        let rest = crate::proposals::proposals_at(m.proposals, first);
        if m.proposals.contains_key(ids.last()) {
            assert(rest.push(m.proposals[ids.last()]).drop_last() =~= rest);
        }
        assert(keep_id(ids.last()) <==> m.proposals.contains_key(ids.last()) && keep(
            m.proposals[ids.last()],
        ));
    }
}

proof fn lemma_count_in_status(m: GovernanceModel, status: ProposalStatus)
    ensures
        m.listed_proposals().filter(crate::statistics::in_status(status)).len() == numbers_in(
            m,
            status,
        ).len(),
        numbers_in(m, status).len() <= m.proposal_ids.len(),
{
    lemma_count(
        m,
        m.proposal_ids,
        crate::statistics::in_status(status),
        |id: u64| m.proposals.contains_key(id) && m.proposals[id].status == status,
    );
}

/// The statistics count the listed proposals and, among them, those in each status: pending and
/// active ones together, and succeeded, failed and executed ones each on their own. Without a token
/// supply there are no statistics. A list has a `u32` as its length.
pub proof fn statistics_count_by_status(m: GovernanceModel)
    requires
        m.proposal_ids.len() <= u32::MAX,
    ensures
        match m.statistics() {
            Err(e) => m.total_supply == Err::<i128, GovernanceError>(e),
            Ok(s) => {
                &&& m.total_supply is Ok
                &&& s.total_proposals == m.proposal_ids.filter(
                    |id: u64| m.proposals.contains_key(id),
                ).len()
                &&& s.active_proposals == m.proposal_ids.filter(
                    |id: u64|
                        m.proposals.contains_key(id) && (m.proposals[id].status is Pending
                            || m.proposals[id].status is Active),
                ).len()
                &&& s.succeeded_proposals == numbers_in(m, ProposalStatus::Succeeded).len()
                &&& s.failed_proposals == numbers_in(m, ProposalStatus::Failed).len()
                &&& s.executed_proposals == numbers_in(m, ProposalStatus::Executed).len()
            },
        },
{
    listings_follow_the_numbers(m);
    lemma_count(
        m,
        m.proposal_ids,
        |p: ProposalModel| true,
        |id: u64| m.proposals.contains_key(id),
    );
    lemma_count(
        m,
        m.proposal_ids,
        crate::statistics::open_ones(),
        |id: u64|
            m.proposals.contains_key(id) && (m.proposals[id].status is Pending
                || m.proposals[id].status is Active),
    );
    lemma_count_in_status(m, ProposalStatus::Succeeded);
    lemma_count_in_status(m, ProposalStatus::Failed);
    lemma_count_in_status(m, ProposalStatus::Executed);
}

proof fn lemma_one_changes(
    ids: Seq<u64>,
    id: u64,
    before: spec_fn(u64) -> bool,
    after: spec_fn(u64) -> bool,
)
    requires
        ids.no_duplicates(),
        forall|x: u64| x != id ==> #[trigger] before(x) == after(x),
    ensures
        ids.filter(after).len() - ids.filter(before).len() == if !ids.contains(id) || before(id)
            == after(id) {
            0
        } else if after(id) {
            1
        } else {
            -1int
        },
    decreases ids.len(),
{
    reveal(Seq::filter);
    if ids.len() > 0 {
        let first = ids.drop_last();
        lemma_one_changes(first, id, before, after);
        assert(ids.contains(id) <==> first.contains(id) || ids.last() == id) by {
            if ids.contains(id) && ids.last() != id {
                let k = choose|k: int| 0 <= k < ids.len() && ids[k] == id;
                assert(first[k] == id);
            }
            if first.contains(id) {
                let k = choose|k: int| 0 <= k < first.len() && first[k] == id;
                assert(ids[k] == id);
            }
        }
        assert(ids.last() == id ==> !first.contains(id));
        assert(before(ids.last()) == after(ids.last()) || ids.last() == id);
    }
}

/// Deciding one more proposal moves it from the active ones to the failed ones, to the succeeded
/// ones, or, where it is carried out at once, to the executed ones: the one count falls by one, the
/// other rises by one, and the rest stay as they are.
pub proof fn a_decision_moves_one_proposal_between_the_counts(m: GovernanceModel, now: u64, id: u64)
    requires
        m.is_consistent(),
        m.proposal_ids.len() <= u32::MAX,
        m.total_supply is Ok,
        m.finalization_refusal(now, id) is None,
    ensures
        ({
            let a = m.statistics()->Ok_0;
            let n = m.after_finalization(now, id);
            let b = n.statistics()->Ok_0;
            let status = n.proposals[id].status;
            &&& n.statistics() is Ok
            &&& b.total_proposals == a.total_proposals
            &&& b.active_proposals == a.active_proposals - 1
            &&& status is Succeeded || status is Failed || status is Executed
            &&& m.decision(m.proposals[id]) is Failed <==> status is Failed
            &&& m.decision(m.proposals[id]) is Succeeded && in_force(m).execution_delay > 0
                ==> status is Succeeded
            &&& b.succeeded_proposals - a.succeeded_proposals == if status is Succeeded {
                1int
            } else {
                0
            }
            &&& b.failed_proposals - a.failed_proposals == if status is Failed {
                1int
            } else {
                0
            }
            &&& b.executed_proposals - a.executed_proposals == if status is Executed {
                1int
            } else {
                0
            }
        }),
{
    let n = m.after_finalization(now, id);
    let p = m.proposals[id];
    assert(m.proposals.contains_key(id));
    assert(m.proposal_ids.contains(id));
    assert(p.id == id);
    if m.decision(p) == ProposalStatus::Succeeded {
        successes_are_stored_and_carried_out(m, now, id);
    } else {
        failures_are_stored_and_cost_the_deposit(m, now, id);
    }
    let q = n.proposals[id];
    assert(n.proposals == m.proposals.insert(id, q));
    statistics_count_by_status(m);
    statistics_count_by_status(n);
    lemma_one_changes(
        m.proposal_ids,
        id,
        |x: u64| m.proposals.contains_key(x),
        |x: u64| n.proposals.contains_key(x),
    );
    lemma_one_changes(
        m.proposal_ids,
        id,
        |x: u64|
            m.proposals.contains_key(x) && (m.proposals[x].status is Pending
                || m.proposals[x].status is Active),
        |x: u64|
            n.proposals.contains_key(x) && (n.proposals[x].status is Pending
                || n.proposals[x].status is Active),
    );
    lemma_status_change(m, n, id, ProposalStatus::Succeeded);
    lemma_status_change(m, n, id, ProposalStatus::Failed);
    lemma_status_change(m, n, id, ProposalStatus::Executed);
}

proof fn lemma_status_change(
    m: GovernanceModel,
    n: GovernanceModel,
    id: u64,
    status: ProposalStatus,
)
    requires
        m.proposal_ids.no_duplicates(),
        m.proposal_ids.contains(id),
        m.proposals.contains_key(id),
        n.proposal_ids == m.proposal_ids,
        n.proposals == m.proposals.insert(id, n.proposals[id]),
    ensures
        numbers_in(n, status).len() - numbers_in(m, status).len() == if (m.proposals[id].status
            == status) == (n.proposals[id].status == status) {
            0
        } else if n.proposals[id].status == status {
            1
        } else {
            -1int
        },
{
    lemma_one_changes(
        m.proposal_ids,
        id,
        |x: u64| m.proposals.contains_key(x) && m.proposals[x].status == status,
        |x: u64| n.proposals.contains_key(x) && n.proposals[x].status == status,
    );
}

/// Creating one more proposal raises the number of all and of active ones by one and no other count.
pub proof fn a_creation_adds_one_active_proposal(m: GovernanceModel, p: ProposalModel)
    requires
        m.is_consistent(),
        m.next_proposal_id < u64::MAX,
        m.proposal_ids.len() < u32::MAX,
        m.total_supply is Ok,
        p.status is Pending,
    ensures
        ({
            let a = m.statistics()->Ok_0;
            let b = m.created(p).statistics()->Ok_0;
            &&& m.created(p).statistics() is Ok
            &&& b.total_proposals == a.total_proposals + 1
            &&& b.active_proposals == a.active_proposals + 1
            &&& b.succeeded_proposals == a.succeeded_proposals
            &&& b.failed_proposals == a.failed_proposals
            &&& b.executed_proposals == a.executed_proposals
        }),
{
    let n = m.created(p);
    let id = m.next_proposal_id;
    let ids = m.proposal_ids;
    assert(!m.proposals.contains_key(id));
    assert(!ids.contains(id));
    assert(n.proposal_ids == ids.push(id));
    assert(n.proposals == m.proposals.insert(id, p));
    statistics_count_by_status(m);
    statistics_count_by_status(n);
    lemma_one_more(
        ids,
        id,
        |x: u64| m.proposals.contains_key(x),
        |x: u64| n.proposals.contains_key(x),
    );
    lemma_one_more(
        ids,
        id,
        |x: u64|
            m.proposals.contains_key(x) && (m.proposals[x].status is Pending
                || m.proposals[x].status is Active),
        |x: u64|
            n.proposals.contains_key(x) && (n.proposals[x].status is Pending
                || n.proposals[x].status is Active),
    );
    lemma_one_more(
        ids,
        id,
        |x: u64| m.proposals.contains_key(x) && m.proposals[x].status == ProposalStatus::Succeeded,
        |x: u64| n.proposals.contains_key(x) && n.proposals[x].status == ProposalStatus::Succeeded,
    );
    lemma_one_more(
        ids,
        id,
        |x: u64| m.proposals.contains_key(x) && m.proposals[x].status == ProposalStatus::Failed,
        |x: u64| n.proposals.contains_key(x) && n.proposals[x].status == ProposalStatus::Failed,
    );
    lemma_one_more(
        ids,
        id,
        |x: u64| m.proposals.contains_key(x) && m.proposals[x].status == ProposalStatus::Executed,
        |x: u64| n.proposals.contains_key(x) && n.proposals[x].status == ProposalStatus::Executed,
    );
}

proof fn lemma_one_more(
    ids: Seq<u64>,
    id: u64,
    before: spec_fn(u64) -> bool,
    after: spec_fn(u64) -> bool,
)
    requires
        ids.no_duplicates(),
        !ids.contains(id),
        forall|x: u64| x != id ==> #[trigger] before(x) == after(x),
    ensures
        ids.push(id).filter(after).len() == ids.filter(before).len() + if after(id) {
            1nat
        } else {
            0nat
        },
{
    reveal(Seq::filter);
    lemma_one_changes(ids, id, before, after);
    assert(ids.push(id).drop_last() =~= ids);
}

/// `r` is the share that `part` is of `whole` in basis points, rounded down. Where ten thousand
/// times the part lies beyond an `i128`, the largest one is divided; of a share beyond a `u64`, the
/// last 64 bits count.
pub open spec fn is_share(part: int, whole: int, r: int) -> bool {
    exists|scaled: int, q: int|
        is_nearest(part * 10_000, scaled) && #[trigger] is_quotient(scaled, whole, q)
            && is_remainder(q, 0x1_0000_0000_0000_0000, r)
}

/// `q` is how often `b` goes into `a`.
pub open spec fn is_quotient(a: int, b: int, q: int) -> bool {
    q * b <= a && a < (q + 1) * b
}

/// `r` is what is left of `a` when `b` is taken off as often as possible.
pub open spec fn is_remainder(a: int, b: int, r: int) -> bool {
    0 <= r < b && (a - r) % b == 0
}

proof fn lemma_quotient(a: int, b: int, q: int)
    requires
        a >= 0,
        b > 0,
        is_quotient(a, b, q),
    ensures
        q == a / b,
{
    assert(q == a / b) by (nonlinear_arith)
        requires
            a >= 0,
            b > 0,
            q * b <= a,
            a < (q + 1) * b,
    ;
}

proof fn lemma_share(part: int, whole: int, r: int)
    requires
        part >= 0,
        whole > 0,
        is_share(part, whole, r),
    ensures
        crate::statistics::rate(part, whole) == r,
{
    let (scaled, q) = choose|scaled: int, q: int|
        is_nearest(part * 10_000, scaled) && #[trigger] is_quotient(scaled, whole, q)
            && is_remainder(q, 0x1_0000_0000_0000_0000, r);
    lemma_quotient(scaled, whole, q);
}

/// `x`, or the largest `u64` where that is less.
pub open spec fn at_most_u64(x: int) -> int {
    if x <= 0xffff_ffff_ffff_ffff {
        x
    } else {
        0xffff_ffff_ffff_ffff
    }
}

/// A mean: `total` or, where that is less, the largest `u64`, divided by the number, rounded down;
/// beyond a `u32` the last 32 bits count. Of nothing it is zero.
pub open spec fn is_mean(total: int, number: int, mean: int) -> bool {
    if number == 0 {
        mean == 0
    } else {
        exists|q: int| #[trigger]
            is_quotient(at_most_u64(total), number, q) && is_remainder(q, 0x1_0000_0000, mean)
    }
}

proof fn lemma_mean(rates: Seq<int>, number: int)
    requires
        number == rates.len(),
        forall|i: int| 0 <= i < rates.len() ==> rates[i] >= 0,
    ensures
        is_mean(
            rates.fold_left(0int, |sum: int, x: int| sum + x),
            number,
            crate::statistics::mean_rate(rates),
        ),
        0 <= crate::statistics::mean_rate(rates) <= u32::MAX,
{
    crate::math::saturating_total_of_nonnegative_terms(rates);
    lemma_total_is_a_fold(rates);
    let sum = at_most_u64(rates.fold_left(0int, |sum: int, x: int| sum + x));
    if number > 0 {
        let q = sum / number;
        assert(is_quotient(sum, number, q)) by (nonlinear_arith)
            requires
                sum >= 0,
                number > 0,
                q == sum / number,
        ;
    }
}

/// The mean participation is the mean, over all listed proposals, of the share of the token supply
/// that all votes make up; without a positive supply it is zero. The mean approval is the mean, over
/// the listed proposals with votes for or against, of the share of these that votes for make up.
pub proof fn statistics_average_the_shares(
    m: GovernanceModel,
    supply: i128,
    turnouts: Seq<int>,
    contested: Seq<ProposalModel>,
    approvals: Seq<int>,
)
    requires
        m.total_supply == Ok::<i128, GovernanceError>(supply),
        forall|i: int|
            0 <= i < m.listed_proposals().len() ==> {
                let p = #[trigger] m.listed_proposals()[i];
                p.votes_for >= 0 && p.votes_against >= 0 && p.votes_abstain >= 0 && is_i128(
                    p.votes_for + p.votes_against + p.votes_abstain,
                )
            },
        contested == m.listed_proposals().filter(
            |p: ProposalModel| p.votes_for + p.votes_against > 0,
        ),
        turnouts.len() == m.listed_proposals().len(),
        supply > 0 ==> forall|i: int|
            0 <= i < turnouts.len() ==> {
                let p = m.listed_proposals()[i];
                is_share(
                    p.votes_for + p.votes_against + p.votes_abstain,
                    supply as int,
                    #[trigger] turnouts[i],
                )
            },
        approvals.len() == contested.len(),
        forall|i: int|
            0 <= i < approvals.len() ==> is_share(
                contested[i].votes_for as int,
                contested[i].votes_for + contested[i].votes_against,
                #[trigger] approvals[i],
            ),
    ensures
        ({
            let s = m.statistics()->Ok_0;
            let sum = |sum: int, x: int| sum + x;
            &&& m.statistics() is Ok
            &&& supply > 0 ==> is_mean(
                turnouts.fold_left(0int, sum),
                turnouts.len() as int,
                s.avg_participation_rate as int,
            )
            &&& supply <= 0 ==> s.avg_participation_rate == 0
            &&& is_mean(
                approvals.fold_left(0int, sum),
                approvals.len() as int,
                s.avg_approval_rate as int,
            )
        }),
{
    let all = m.listed_proposals();
    if supply > 0 {
        let rates = crate::statistics::participation_rates(all, supply);
        assert forall|i: int| 0 <= i < turnouts.len() implies #[trigger] turnouts[i] == rates[i] by {
            let p = all[i];
            lemma_share(
                p.votes_for + p.votes_against + p.votes_abstain,
                supply as int,
                turnouts[i],
            );
        }
        assert(turnouts =~= rates);
        lemma_mean(turnouts, turnouts.len() as int);
    }
    let keep = |p: ProposalModel| p.votes_for + p.votes_against > 0;
    lemma_same_filter(all, keep, crate::statistics::contested_ones());
    let rates = crate::statistics::approval_rates(all);
    assert forall|i: int| 0 <= i < approvals.len() implies #[trigger] approvals[i] == rates[i] by {
        lemma_filtered(all, keep, i);
        let p = contested[i];
        lemma_share(p.votes_for as int, p.votes_for + p.votes_against, approvals[i]);
    }
    assert(approvals =~= rates);
    lemma_mean(approvals, approvals.len() as int);
}

proof fn lemma_same_filter(
    s: Seq<ProposalModel>,
    a: spec_fn(ProposalModel) -> bool,
    b: spec_fn(ProposalModel) -> bool,
)
    requires
        forall|i: int| 0 <= i < s.len() ==> a(#[trigger] s[i]) == b(s[i]),
    ensures
        s.filter(a) == s.filter(b),
    decreases s.len(),
{
    reveal(Seq::filter);
    if s.len() > 0 {
        let first = s.drop_last();
        assert forall|i: int| 0 <= i < first.len() implies a(#[trigger] first[i]) == b(first[i]) by {
            assert(first[i] == s[i]);
        }
        lemma_same_filter(first, a, b);
        assert(a(s[s.len() - 1]) == b(s[s.len() - 1]));
    }
}

proof fn lemma_filtered(s: Seq<ProposalModel>, keep: spec_fn(ProposalModel) -> bool, i: int)
    requires
        0 <= i < s.filter(keep).len(),
    ensures
        keep(s.filter(keep)[i]),
        exists|k: int| 0 <= k < s.len() && s[k] == s.filter(keep)[i],
    decreases s.len(),
{
    reveal(Seq::filter);
    if s.len() > 0 {
        let first = s.drop_last();
        if i < first.filter(keep).len() {
            lemma_filtered(first, keep, i);
            let k = choose|k: int| 0 <= k < first.len() && first[k] == first.filter(keep)[i];
            assert(s[k] == s.filter(keep)[i]);
        } else {
            assert(s[s.len() - 1] == s.filter(keep)[i]);
        }
    }
}

/// A share of a negative part is rounded towards zero, and its last 64 bits count.
pub proof fn negative_shares_are_rounded_towards_zero(part: int, whole: int, scaled: int, q: int, r: int)
    requires
        part < 0,
        whole > 0,
        is_nearest(part * 10_000, scaled),
        is_quotient(-scaled, whole, -q),
        is_remainder(q, 0x1_0000_0000_0000_0000, r),
    ensures
        crate::statistics::rate(part, whole) == r,
{
    lemma_quotient(-scaled, whole, -q);
}

} // verus!
