//! What requests keep, undo and leave alone.

use vstd::prelude::*;

use crate::collections::amount_of;
use crate::finalization::BPS_DENOMINATOR;
use crate::invariants::{
    every_history_keeps_the_books_in_order, every_request_keeps_the_books_in_order, is_history,
    lemma_one_more_vote_adds_up, recorded_weights, Request,
};
use crate::math::{
    clamp_i128, fits_i128, floor_sqrt, floor_sqrt_exists, quadratic_weight_is_positive_and_bounded,
    saturating_total, saturating_total_of_nonnegative_terms, total, total_of_one_more,
    total_with_a_change, total_without_one,
};
use crate::proposals::proposals_at;
use crate::state::{config_is_valid, GovernanceModel};
use crate::statistics::{in_status, open_ones};
use crate::types::{
    ActionModel, Address, Asset, EventModel, GovernanceConfig, GovernanceError, ProposalCategory,
    ProposalModel, ProposalStatus, VoteType,
};

verus! {

impl GovernanceModel {
    /// Whether the action is a payment that is debited and then cannot be credited.
    pub open spec fn strands_a_payment(self, action: ActionModel) -> bool {
        match action {
            ActionModel::TreasurySpend(recipient, amount, asset, _) => self.can_debit(
                asset,
                amount,
            ) && !self.can_credit(recipient, amount),
            _ => false,
        }
    }
}

/// A request that is refused changes nothing but the list of demanded authorizations. The one
/// exception is a payment that is debited and then cannot be credited.
pub proof fn refused_requests_change_nothing(m: GovernanceModel, request: Request)
    requires
        m.is_consistent(),
        m.refusal(request) is Some,
        request matches Request::Act { id } ==> m.proposals.contains_key(id)
            ==> !m.strands_a_payment(m.proposals[id].action),
        request matches Request::Execute { now, id, .. } ==> m.execution_refusal(now, id) is None
            ==> !m.strands_a_payment(m.proposals[id].action),
    ensures
        m.after(request) == (GovernanceModel { auths: m.after(request).auths, ..m }),
{
}

/// A proposal that was withdrawn stays as it is, whatever is requested. New proposals get new
/// numbers.
pub proof fn withdrawn_proposals_never_change(m: GovernanceModel, request: Request, id: u64)
    requires
        m.proposals.contains_key(id),
        m.proposals[id].status == ProposalStatus::Withdrawn,
        request is Create ==> id != m.next_proposal_id,
    ensures
        m.after(request).proposals.contains_key(id),
        m.after(request).proposals[id] == m.proposals[id],
{
}

/// A proposal that was withdrawn is not replaced.
pub proof fn withdrawn_proposals_are_not_replaced(m: GovernanceModel, p: ProposalModel, id: u64)
    requires
        m.proposals.contains_key(id),
        m.proposals[id].status == ProposalStatus::Withdrawn,
    ensures
        m.after_replacement(p).proposals.contains_key(id),
        m.after_replacement(p).proposals[id] == m.proposals[id],
{
}

/// Nobody votes on, finalizes, executes, cancels or withdraws a proposal that was withdrawn.
pub proof fn withdrawn_proposals_are_out_of_the_vote(
    m: GovernanceModel,
    now: u64,
    id: u64,
    account: Address,
    kind: VoteType,
)
    requires
        m.is_consistent(),
        m.proposals.contains_key(id),
        m.proposals[id].status == ProposalStatus::Withdrawn,
    ensures
        m.vote_refusal(now, id, account, kind) is Some,
        m.finalization_refusal(now, id) is Some,
        m.execution_refusal(now, id) is Some,
        m.marking_refusal(id) is Some,
        m.cancellation_refusal(id, account) is Some,
        m.withdrawal_refusal(id, account) is Some,
{
}

/// Whether a proposal in the first status may be in the second one after a request.
pub open spec fn may_follow(before: ProposalStatus, after: ProposalStatus) -> bool {
    ||| after == before
    ||| before == ProposalStatus::Pending && after == ProposalStatus::Active
    ||| before == ProposalStatus::Pending && after == ProposalStatus::Withdrawn
    ||| (before == ProposalStatus::Pending || before == ProposalStatus::Active) && (after
        == ProposalStatus::Succeeded || after == ProposalStatus::Failed)
    ||| before != ProposalStatus::Withdrawn && after == ProposalStatus::Executed
    ||| before != ProposalStatus::Withdrawn && before != ProposalStatus::Executed && after
        == ProposalStatus::Cancelled
}

/// No request loses a proposal or moves its status other than forward.
pub proof fn statuses_move_forward(m: GovernanceModel, request: Request, id: u64)
    requires
        m.is_consistent(),
        m.proposals.contains_key(id),
    ensures
        m.after(request).proposals.contains_key(id),
        may_follow(m.proposals[id].status, m.after(request).proposals[id].status),
{
}

/// What a proposal says never changes: its proposer, its action, its texts, its times and its way of
/// counting.
pub proof fn proposals_keep_their_terms(m: GovernanceModel, request: Request, id: u64)
    requires
        m.is_consistent(),
        m.proposals.contains_key(id),
    ensures
        ({
            let p = m.proposals[id];
            let q = m.after(request).proposals[id];
            q == ProposalModel {
                votes_for: q.votes_for,
                votes_against: q.votes_against,
                votes_abstain: q.votes_abstain,
                status: q.status,
                voters: q.voters,
                voter_list: q.voter_list,
                executed_at: q.executed_at,
                ..p
            }
        }),
{
}

/// A vote that was cast is never changed or dropped.
pub proof fn votes_are_final(m: GovernanceModel, request: Request, id: u64, voter: Address)
    requires
        m.is_consistent(),
        m.proposals.contains_key(id),
        m.proposals[id].voters.contains_key(voter),
    ensures
        m.after(request).proposals[id].voters.contains_key(voter),
        m.after(request).proposals[id].voters[voter] == m.proposals[id].voters[voter],
{
}

/// An account that has voted on a proposal cannot vote on it again, after any further request and
/// at any time.
pub proof fn nobody_votes_twice(
    m: GovernanceModel,
    now: u64,
    id: u64,
    voter: Address,
    kind: VoteType,
    request: Request,
    later: u64,
    again: VoteType,
)
    requires
        m.is_consistent(),
        m.vote_refusal(now, id, voter, kind) is None,
    ensures
        m.after_vote(now, id, voter, kind).proposals[id].voters[voter] == m.ballot(
            now,
            id,
            voter,
            kind,
        ),
        m.after_vote(now, id, voter, kind).vote_refusal(later, id, voter, again) is Some,
        m.after_vote(now, id, voter, kind).after(request).vote_refusal(later, id, voter, again)
            is Some,
{
    let n = m.after(Request::Vote { now, id, voter, kind });
    every_request_keeps_the_books_in_order(m, Request::Vote { now, id, voter, kind });
    assert(n.proposals[id].voters.contains_key(voter));
    votes_are_final(n, request, id, voter);
}

/// The power on record for votes on a proposal is never changed.
pub proof fn recorded_powers_never_change(
    m: GovernanceModel,
    request: Request,
    id: u64,
    voter: Address,
)
    requires
        request is Create ==> id != m.next_proposal_id,
    ensures
        m.after(request).recorded_power(id, voter) == m.recorded_power(id, voter),
{
}

/// Staking, unstaking, transfers and delegations after the creation of a proposal have no bearing on
/// a vote: two states with the same proposals and the same powers on record accept the same votes,
/// with the same weight.
pub proof fn votes_ignore_later_stakes(
    a: GovernanceModel,
    b: GovernanceModel,
    now: u64,
    id: u64,
    voter: Address,
    kind: VoteType,
)
    requires
        a.proposals == b.proposals,
        a.snapshots == b.snapshots,
    ensures
        a.vote_refusal(now, id, voter, kind) == b.vote_refusal(now, id, voter, kind),
        a.ballot(now, id, voter, kind) == b.ballot(now, id, voter, kind),
{
}

/// A new proposal has on record, for every holder and nobody else, the power at its creation.
pub proof fn creation_records_the_powers(m: GovernanceModel, p: ProposalModel, account: Address)
    ensures
        m.created(p).recorded_power(m.next_proposal_id, account) == if m.holders.contains(account)
            && m.effective_power(account) > 0 {
            m.effective_power(account)
        } else {
            0
        },
{
}

/// A new proposal gets a number that no other one has, and leaves every other one alone.
pub proof fn creation_adds_one_proposal(m: GovernanceModel, p: ProposalModel, other: u64)
    requires
        m.is_consistent(),
        m.next_proposal_id < u64::MAX,
    ensures
        !m.proposals.contains_key(m.next_proposal_id),
        m.created(p).proposals[m.next_proposal_id] == p,
        m.created(p).next_proposal_id == m.next_proposal_id + 1,
        m.proposals.contains_key(other) ==> {
            &&& m.created(p).proposals.contains_key(other)
            &&& m.created(p).proposals[other] == m.proposals[other]
            &&& m.created(p).snapshots[other] == m.snapshots[other]
        },
{
}

/// A vote is accepted only after the discussion and within the voting period, during which the
/// proposal cannot be finalized.
pub proof fn votes_are_in_time(m: GovernanceModel, now: u64, id: u64, voter: Address, kind: VoteType)
    requires
        m.vote_refusal(now, id, voter, kind) is None,
    ensures
        m.proposals[id].discussion_ends_at <= now,
        m.proposals[id].voting_starts <= now < m.proposals[id].voting_ends,
        m.finalization_refusal(now, id) == Some(GovernanceError::InvalidDuration),
{
}

/// The end of a discussion is announced with the first vote that is accepted, and with no other
/// vote.
pub proof fn discussion_end_is_announced_with_the_first_vote(
    m: GovernanceModel,
    now: u64,
    id: u64,
    voter: Address,
    kind: VoteType,
)
    requires
        m.proposals.contains_key(id),
    ensures
        m.after_vote(now, id, voter, kind).events == if m.vote_refusal(now, id, voter, kind) is None
            && m.proposals[id].discussion_ends_at > 0 && m.proposals[id].voter_list.len() == 0 {
            m.events.push(
                EventModel::DiscussionEnded {
                    id,
                    discussion_ends_at: m.proposals[id].discussion_ends_at,
                    now,
                },
            )
        } else {
            m.events
        },
{
}

/// Once a proposal has a vote, it keeps having one, and no further vote announces the end of its
/// discussion again.
pub proof fn discussion_end_is_announced_once(
    m: GovernanceModel,
    id: u64,
    request: Request,
    now: u64,
    voter: Address,
    kind: VoteType,
)
    requires
        m.is_consistent(),
        m.proposals.contains_key(id),
        m.proposals[id].voter_list.len() > 0,
    ensures
        m.after_vote(now, id, voter, kind).events == m.events,
        m.after(request).proposals.contains_key(id),
        m.after(request).proposals[id].voter_list.len() > 0,
        m.after(request).after_vote(now, id, voter, kind).events == m.after(request).events,
{
    statuses_move_forward(m, request, id);
    assert(m.after(request).proposals[id].voter_list.len() > 0);
    discussion_end_is_announced_with_the_first_vote(m, now, id, voter, kind);
    discussion_end_is_announced_with_the_first_vote(m.after(request), now, id, voter, kind);
}

/// A proposal that is no longer open to votes and decisions never is again, and one that was carried
/// out stays so.
pub proof fn closed_proposals_stay_closed(m: GovernanceModel, request: Request, id: u64)
    requires
        m.is_consistent(),
        m.proposals.contains_key(id),
    ensures
        !m.proposals[id].is_open() ==> !m.after(request).proposals[id].is_open(),
        m.proposals[id].status == ProposalStatus::Executed ==> m.after(request).proposals[id].status
            == ProposalStatus::Executed,
{
    statuses_move_forward(m, request, id);
}

/// A proposal is decided at most once: the decision closes it, and after any further request it
/// cannot be decided again.
pub proof fn decisions_are_final(m: GovernanceModel, now: u64, id: u64, request: Request, later: u64)
    requires
        m.is_consistent(),
        m.finalization_refusal(now, id) is None,
    ensures
        !m.after_finalization(now, id).proposals[id].is_open(),
        m.after_finalization(now, id).finalization_refusal(later, id) is Some,
        m.after_finalization(now, id).after(request).finalization_refusal(later, id) is Some,
{
    let n = m.after(Request::Finalize { now, id });
    every_request_keeps_the_books_in_order(m, Request::Finalize { now, id });
    assert(n.proposals.contains_key(id));
    closed_proposals_stay_closed(n, request, id);
}

/// A proposal that has succeeded is carried out when it is decided, where there is no execution
/// delay and its action does not fail.
pub proof fn success_without_delay_is_execution(m: GovernanceModel, now: u64, id: u64)
    requires
        m.is_consistent(),
        m.finalization_refusal(now, id) is None,
        m.decision(m.proposals[id]) == ProposalStatus::Succeeded,
        m.rules().execution_delay == 0,
        m.action_failure(m.proposals[id].action) is None,
    ensures
        m.after_finalization(now, id).proposals[id].status == ProposalStatus::Executed,
        m.after_finalization(now, id).proposals[id].executed_at == Some(now),
{
}

/// A proposal that has succeeded is executed at most once: after any further request it cannot be
/// executed again.
pub proof fn execution_happens_once(
    m: GovernanceModel,
    now: u64,
    id: u64,
    executor: Address,
    request: Request,
    later: u64,
)
    requires
        m.is_consistent(),
        m.execution_failure(now, id) is None,
    ensures
        m.after_execution(now, id, executor).proposals[id] == m.proposals[id].executed(now),
        m.after_execution(now, id, executor).execution_failure(later, id) == Some(
            GovernanceError::ProposalNotApproved,
        ),
        m.after_execution(now, id, executor).after(request).execution_failure(later, id) == Some(
            GovernanceError::ProposalNotApproved,
        ),
{
    let n = m.after(Request::Execute { now, id, executor });
    every_request_keeps_the_books_in_order(m, Request::Execute { now, id, executor });
    statuses_move_forward(n, request, id);
}

/// A payment takes from the treasury what it gives to the recipient, leaves a treasury that is not
/// in debt, and touches no other asset and no other account.
pub proof fn payments_conserve_value(
    m: GovernanceModel,
    recipient: Address,
    amount: i128,
    asset: Asset,
    purpose: Seq<u8>,
    other_asset: Asset,
    other_account: Address,
)
    requires
        m.action_failure(ActionModel::TreasurySpend(recipient, amount, asset, purpose)) is None,
    ensures
        ({
            let n = m.acted(ActionModel::TreasurySpend(recipient, amount, asset, purpose));
            &&& n.treasury_holds(asset) == m.treasury_holds(asset) - amount
            &&& n.treasury_holds(asset) >= 0
            &&& n.balance_of(recipient) == m.balance_of(recipient) + amount
            &&& n.treasury_holds(asset) + n.balance_of(recipient) == m.treasury_holds(asset)
                + m.balance_of(recipient)
            &&& other_asset != asset ==> n.treasury_holds(other_asset) == m.treasury_holds(
                other_asset,
            )
            &&& other_account != recipient ==> n.balance_of(other_account) == m.balance_of(
                other_account,
            )
        }),
{
}

/// A payment that can be proposed is positive and at most a tenth of what the treasury holds. What
/// lies beyond an `i128` counts as the largest one, so a treasury that holds that much is left out.
pub proof fn proposed_payments_are_at_most_a_tenth(
    m: GovernanceModel,
    recipient: Address,
    amount: i128,
    asset: Asset,
    purpose: Seq<u8>,
)
    requires
        m.treasury_holds(asset) < i128::MAX,
    ensures
        m.action_refusal(ActionModel::TreasurySpend(recipient, amount, asset, purpose)) is None <==> {
            &&& amount > 0
            &&& amount * 10 <= m.treasury_holds(asset)
        },
{
}

/// A withdrawal always returns the deposit that the proposer has locked, in full: the balance grows
/// by exactly that, the deposit is unlocked, so that it is returned once, and the refund is
/// announced. No other account, no other deposit and no treasury is touched.
pub proof fn withdrawal_returns_the_deposit(
    m: GovernanceModel,
    now: u64,
    id: u64,
    account: Address,
    other: Address,
    other_id: u64,
)
    requires
        m.withdrawal_refusal(id, account) is None,
        m.deposit_is_due(id, account),
    ensures
        ({
            let n = m.after_withdrawal(now, id, account);
            &&& n.balance_of(account) == m.balance_of(account) + m.deposit_on(id)
            &&& !n.locked_deposits.contains_key(id)
            &&& n.events == m.events.push(
                EventModel::DepositRefunded { id, proposer: account, amount: m.deposit_on(id) },
            ).push(EventModel::ProposalWithdrawn { id, proposer: account, now })
            &&& n.treasury == m.treasury
            &&& other != account ==> n.balance_of(other) == m.balance_of(other)
            &&& other_id != id ==> n.locked_deposits.contains_key(other_id)
                == m.locked_deposits.contains_key(other_id) && n.locked_deposits[other_id]
                == m.locked_deposits[other_id]
        }),
{
}

/// A withdrawal by a proposer who has no deposit on the proposal moves no value and unlocks nothing.
pub proof fn withdrawal_without_a_deposit_moves_nothing(
    m: GovernanceModel,
    now: u64,
    id: u64,
    account: Address,
)
    requires
        m.withdrawal_refusal(id, account) is None,
        !m.deposit_is_due(id, account),
    ensures
        ({
            let n = m.after_withdrawal(now, id, account);
            &&& n.balances == m.balances
            &&& n.treasury == m.treasury
            &&& n.locked_deposits == m.locked_deposits
            &&& n.events == m.events.push(
                EventModel::ProposalWithdrawn { id, proposer: account, now },
            )
        }),
{
}

/// A proposer who withdraws a proposal that is not pending any more, a second withdrawal included,
/// is told so, and nothing changes.
pub proof fn only_pending_proposals_are_withdrawn(
    m: GovernanceModel,
    now: u64,
    id: u64,
    account: Address,
)
    requires
        m.proposals.contains_key(id),
        m.proposals[id].proposer == account,
        m.proposals[id].status != ProposalStatus::Pending,
    ensures
        m.withdrawal_refusal(id, account) == Some(GovernanceError::ProposalNotActive),
        m.after_withdrawal(now, id, account) == m.demanding(account),
{
}

/// A proposal that fails forfeits the deposit on it: the treasury gains exactly that, the deposit is
/// unlocked, and nobody is refunded.
pub proof fn failure_forfeits_the_deposit(m: GovernanceModel, now: u64, id: u64, other_asset: Asset)
    requires
        m.finalization_refusal(now, id) is None,
        m.decision(m.proposals[id]) == ProposalStatus::Failed,
        m.has_deposit(id),
    ensures
        ({
            let n = m.after_finalization(now, id);
            &&& n.treasury_holds(m.deposit_asset) == m.treasury_holds(m.deposit_asset)
                + m.deposit_on(id)
            &&& !n.locked_deposits.contains_key(id)
            &&& n.balances == m.balances
            &&& n.events == m.events
            &&& other_asset != m.deposit_asset ==> n.treasury_holds(other_asset)
                == m.treasury_holds(other_asset)
        }),
{
}

/// A deposit stays locked, as it is, until the account that has locked it withdraws the proposal or
/// the proposal fails.
pub proof fn deposits_stay_locked(m: GovernanceModel, request: Request, id: u64)
    requires
        m.locked_deposits.contains_key(id),
    ensures
        ({
            let n = m.after(request);
            ||| n.locked_deposits.contains_key(id) && n.locked_deposits[id]
                == m.locked_deposits[id]
            ||| !n.locked_deposits.contains_key(id) && m.refusal(request) is None && match request {
                Request::Withdraw { id: withdrawn, account, .. } => withdrawn == id
                    && m.locked_deposits[id].0 == account,
                Request::Finalize { id: failed, .. } => failed == id && m.decision(m.proposals[id])
                    == ProposalStatus::Failed,
                _ => false,
            }
        }),
{
}

/// A configuration that is accepted is the one in force.
pub proof fn accepted_configuration_is_in_force(m: GovernanceModel, config: GovernanceConfig)
    requires
        config_is_valid(config),
    ensures
        m.after_configuration(Ok(()), config).rules() == config,
{
}

/// Unless sums leave `i128`, the quorum is a share of the reference supply and the approval a share
/// of the votes for and against, both exact.
pub proof fn thresholds_are_shares(
    p: ProposalModel,
    reference: i128,
    quorum_bps: u32,
    approval_bps: u32,
)
    requires
        p.votes_for >= 0,
        p.votes_against >= 0,
        p.votes_abstain >= 0,
        reference > 0,
        fits_i128((p.votes_for + p.votes_against + p.votes_abstain) * BPS_DENOMINATOR),
        fits_i128(reference * quorum_bps),
        fits_i128((p.votes_for + p.votes_against) * approval_bps),
    ensures
        p.verdict(reference, quorum_bps, approval_bps) == ProposalStatus::Succeeded <==> {
            &&& (p.votes_for + p.votes_against + p.votes_abstain) * 10_000 >= reference * quorum_bps
            &&& p.votes_for + p.votes_against > 0
            &&& p.votes_for * 10_000 >= (p.votes_for + p.votes_against) * approval_bps
        },
{
    let sum = p.votes_for + p.votes_against + p.votes_abstain;
    assert(sum * BPS_DENOMINATOR >= sum) by (nonlinear_arith)
        requires
            sum >= 0,
            BPS_DENOMINATOR == 10_000,
    ;
}

/// One more vote for a proposal that has the votes to succeed does not make it fail.
pub proof fn votes_for_never_hurt(
    p: ProposalModel,
    q: ProposalModel,
    reference: i128,
    quorum_bps: u32,
    approval_bps: u32,
)
    requires
        p.votes_for >= 0,
        p.votes_against >= 0,
        p.votes_abstain >= 0,
        q == (ProposalModel { votes_for: q.votes_for, ..p }),
        q.votes_for >= p.votes_for,
        reference > 0,
        approval_bps <= 10_000,
        fits_i128((q.votes_for + q.votes_against + q.votes_abstain) * BPS_DENOMINATOR),
        fits_i128(reference * quorum_bps),
        p.verdict(reference, quorum_bps, approval_bps) == ProposalStatus::Succeeded,
    ensures
        q.verdict(reference, quorum_bps, approval_bps) == ProposalStatus::Succeeded,
{
    let cast = p.votes_for + p.votes_against;
    let more = q.votes_for - p.votes_for;
    let bps = approval_bps as int;
    assert(cast * bps <= (p.votes_for + p.votes_against + p.votes_abstain) * 10_000)
        by (nonlinear_arith)
        requires
            0 <= bps <= 10_000,
            0 <= cast <= p.votes_for + p.votes_against + p.votes_abstain,
    ;
    assert((cast + more) * bps <= (q.votes_for + q.votes_against + q.votes_abstain) * 10_000)
        by (nonlinear_arith)
        requires
            0 <= bps <= 10_000,
            0 <= cast + more <= q.votes_for + q.votes_against + q.votes_abstain,
    ;
    assert(0 <= cast * bps && 0 <= (cast + more) * bps) by (nonlinear_arith)
        requires
            0 <= bps,
            0 <= cast,
            0 <= more,
    ;
    thresholds_are_shares(p, reference, quorum_bps, approval_bps);
    thresholds_are_shares(q, reference, quorum_bps, approval_bps);
    assert((cast + more) * bps <= cast * bps + more * 10_000) by (nonlinear_arith)
        requires
            0 <= bps <= 10_000,
            0 <= more,
    ;
}

/// A threshold of a category that is zero or not set is the global one.
pub proof fn zero_stands_for_the_global_threshold(
    m: GovernanceModel,
    category: ProposalCategory,
    global: GovernanceConfig,
)
    ensures
        m.category_threshold(category) is None ==> m.thresholds_for(category, global) == (
            global.quorum_threshold,
            global.approval_threshold,
        ),
        m.category_threshold(category) matches Some(t) ==> {
            let (quorum, approval) = m.thresholds_for(category, global);
            &&& quorum == if t.quorum_bps == 0 {
                global.quorum_threshold
            } else {
                t.quorum_bps
            }
            &&& approval == if t.supermajority_bps == 0 {
                global.approval_threshold
            } else {
                t.supermajority_bps
            }
        },
{
}

/// Where no discussion is configured, no vote on a proposal created then is refused on account of
/// one.
pub proof fn no_discussion_where_none_is_configured(
    m: GovernanceModel,
    created_at: u64,
    proposer: Address,
    action: ActionModel,
    title: Seq<u8>,
    description: Seq<u8>,
    payload: Seq<u8>,
    category: ProposalCategory,
    quadratic: bool,
    n: GovernanceModel,
    now: u64,
    id: u64,
    voter: Address,
    kind: VoteType,
)
    requires
        m.rules().discussion_duration == 0,
        n.proposals.contains_key(id),
        n.proposals[id] == m.new_proposal(
            created_at,
            proposer,
            action,
            title,
            description,
            payload,
            category,
            quadratic,
        ),
    ensures
        n.vote_refusal(now, id, voter, kind) != Some(GovernanceError::DiscussionPeriodActive),
{
}

/// A proposal is withdrawn only by its proposer, and only before anybody has voted on it.
pub proof fn withdrawal_is_the_proposers_before_the_first_vote(
    m: GovernanceModel,
    id: u64,
    account: Address,
)
    requires
        m.is_consistent(),
        m.withdrawal_refusal(id, account) is None,
    ensures
        m.proposals[id].proposer == account,
        m.proposals[id].status == ProposalStatus::Pending,
        m.proposals[id].voter_list.len() == 0,
        m.proposals[id].voters.dom() == Set::<Address>::empty(),
{
    let p = m.proposals[id];
    assert(m.proposals.contains_key(id));
    assert forall|a: Address| !p.voters.dom().contains(a) by {
        assert(p.voter_list.contains(a) <==> p.voters.contains_key(a));
    }
}

/// A request on behalf of an account leaves a demand for the authorization of that account, granted
/// or not; finalizing demands at most that of the proposer, and other requests demand none.
pub proof fn requests_demand_authorization(m: GovernanceModel, request: Request)
    ensures
        ({
            let n = m.after(request);
            match request {
                Request::Create { proposer, .. } => n.auths == m.auths.push(proposer),
                Request::Vote { voter, .. } => n.auths == m.auths.push(voter),
                Request::Execute { executor, .. } => n.auths == m.auths.push(executor),
                Request::Cancel { canceller, .. } => n.auths == m.auths.push(canceller),
                Request::Withdraw { account, .. } => n.auths == m.auths.push(account),
                Request::Delegate { delegator, .. } => n.auths == m.auths.push(delegator),
                Request::Undelegate { delegator } => n.auths == m.auths.push(delegator),
                Request::Finalize { id, .. } => n.auths == m.auths || n.auths == m.auths.push(
                    m.proposals[id].proposer,
                ),
                _ => n.auths == m.auths,
            }
        }),
{
}

/// The votes for, against and abstaining add up to the weights of all who have voted.
pub proof fn tallies_add_up_to_the_votes(p: ProposalModel)
    requires
        p.votes_add_up(),
    ensures
        p.votes_for + p.votes_against + p.votes_abstain == total(weights_of_voters(p)),
{
    let a = p.contributions(VoteType::For);
    let b = p.contributions(VoteType::Against);
    let c = p.contributions(VoteType::Abstain);
    assert(p.tally(VoteType::For) == total(a));
    assert(p.tally(VoteType::Against) == total(b));
    assert(p.tally(VoteType::Abstain) == total(c));
    lemma_total_of_three(weights_of_voters(p), a, b, c);
}

/// No tally is negative.
pub proof fn tallies_are_not_negative(p: ProposalModel, id: u64, snapshot: Map<Address, i128>)
    requires
        p.is_consistent(id, snapshot),
    ensures
        p.votes_for >= 0,
        p.votes_against >= 0,
        p.votes_abstain >= 0,
{
    lemma_tally_is_not_negative(p, id, snapshot, VoteType::For);
    lemma_tally_is_not_negative(p, id, snapshot, VoteType::Against);
    lemma_tally_is_not_negative(p, id, snapshot, VoteType::Abstain);
}

proof fn lemma_tally_is_not_negative(
    p: ProposalModel,
    id: u64,
    snapshot: Map<Address, i128>,
    kind: VoteType,
)
    requires
        p.is_consistent(id, snapshot),
    ensures
        p.tally(kind) >= 0,
{
    let terms = p.contributions(kind);
    assert forall|i: int| 0 <= i < terms.len() implies terms[i] >= 0 by {
        assert(p.voter_list.contains(p.voter_list[i]));
        assert(p.voters.contains_key(p.voter_list[i]));
        assert(p.vote_is_in_order(p.voter_list[i], snapshot));
    }
    saturating_total_of_nonnegative_terms(terms);
}

/// The weights of all who have voted, in their order.
pub open spec fn weights_of_voters(p: ProposalModel) -> Seq<int> {
    p.voter_list.map_values(|a: Address| p.voters[a].voting_power as int)
}

proof fn lemma_total_of_three(s: Seq<int>, a: Seq<int>, b: Seq<int>, c: Seq<int>)
    requires
        s.len() == a.len() == b.len() == c.len(),
        forall|i: int| 0 <= i < s.len() ==> #[trigger] s[i] == a[i] + b[i] + c[i],
    ensures
        total(s) == total(a) + total(b) + total(c),
    decreases s.len(),
{
    if s.len() > 0 {
        lemma_total_of_three(s.drop_last(), a.drop_last(), b.drop_last(), c.drop_last());
        assert(s.last() == s[s.len() - 1]);
    }
}

/// Distinct members of a group do not outweigh it.
proof fn lemma_members_do_not_outweigh_the_group(
    members: Seq<Address>,
    group: Seq<Address>,
    snapshot: Map<Address, i128>,
)
    requires
        members.no_duplicates(),
        forall|a: Address| #[trigger] members.contains(a) ==> group.contains(a),
    ensures
        total(recorded_weights(members, snapshot)) <= total(recorded_weights(group, snapshot)),
    decreases members.len(),
{
    let w = recorded_weights(group, snapshot);
    assert forall|i: int| 0 <= i < group.len() implies w[i] >= 0 by {
        if amount_of(snapshot, group[i]) > 0 {
            floor_sqrt_exists(amount_of(snapshot, group[i]) as int);
        }
    }
    saturating_total_of_nonnegative_terms(w);
    if members.len() > 0 {
        let last = members.last();
        assert(members.contains(last));
        let k = choose|k: int| 0 <= k < group.len() && group[k] == last;
        let rest = group.remove(k);
        let first = members.drop_last();
        assert forall|a: Address| #[trigger] first.contains(a) implies rest.contains(a) by {
            let i = choose|i: int| 0 <= i < first.len() && first[i] == a;
            assert(members[i] == a);
            assert(members.contains(a));
            let j = choose|j: int| 0 <= j < group.len() && group[j] == a;
            assert(j != k);
            if j < k {
                assert(rest[j] == a);
            } else {
                assert(rest[j - 1] == a);
            }
        }
        lemma_members_do_not_outweigh_the_group(first, rest, snapshot);
        total_without_one(w, k);
        assert(recorded_weights(rest, snapshot) =~= w.remove(k));
        assert(recorded_weights(members, snapshot).drop_last() =~= recorded_weights(
            first,
            snapshot,
        ));
    }
}

/// In a quadratic vote, the votes never weigh more than the supply that the quorum is a share of. A
/// list of voters has a `u32` as its length.
pub proof fn quadratic_turnout_is_within_the_supply(p: ProposalModel, snapshot: Map<Address, i128>)
    requires
        p.use_quadratic_voting,
        p.votes_add_up(),
        p.votes_are_covered(snapshot),
        p.voter_list.len() <= u32::MAX,
    ensures
        p.votes_for + p.votes_against + p.votes_abstain <= p.quadratic_total_supply,
{
    let holders = choose|holders: Seq<Address>| #[trigger] p.supply_covers(holders, snapshot);
    let weights = weights_of_voters(p);
    tallies_add_up_to_the_votes(p);
    assert forall|a: Address| #[trigger] p.voter_list.contains(a) implies holders.contains(a) by {
        assert(p.voters.contains_key(a));
        assert(snapshot.contains_key(a));
    }
    lemma_members_do_not_outweigh_the_group(p.voter_list, holders, snapshot);
    assert forall|i: int| 0 <= i < p.voter_list.len() implies {
        &&& #[trigger] weights[i] == recorded_weights(p.voter_list, snapshot)[i]
        &&& 0 <= weights[i] <= 0x1_0000_0000_0000_0000
    } by {
        let a = p.voter_list[i];
        assert(p.voter_list.contains(a));
        assert(p.voters.contains_key(a));
        quadratic_weight_is_positive_and_bounded(snapshot[a] as int);
        lemma_quadratic_weight_is_small(snapshot[a] as int);
    }
    assert(weights =~= recorded_weights(p.voter_list, snapshot));
    saturating_total_of_nonnegative_terms(weights);
    lemma_total_of_small_terms(weights, 0x1_0000_0000_0000_0000);
    assert(weights.len() * 0x1_0000_0000_0000_0000 <= i128::MAX);
}

/// The root of an `i128` takes no more than 64 bits.
proof fn lemma_quadratic_weight_is_small(n: int)
    requires
        0 < n <= i128::MAX,
    ensures
        floor_sqrt(n) <= 0x1_0000_0000_0000_0000,
{
    floor_sqrt_exists(n);
    let r = floor_sqrt(n);
    assert(r <= 0x1_0000_0000_0000_0000) by (nonlinear_arith)
        requires
            0 <= r,
            r * r <= n,
            n <= 0x7fff_ffff_ffff_ffff_ffff_ffff_ffff_ffff,
    ;
}

/// Terms of at most `bound` add up to at most `bound` for each of them.
proof fn lemma_total_of_small_terms(terms: Seq<int>, bound: int)
    requires
        forall|i: int| 0 <= i < terms.len() ==> terms[i] <= bound,
    ensures
        total(terms) <= terms.len() * bound,
    decreases terms.len(),
{
    if terms.len() > 0 {
        lemma_total_of_small_terms(terms.drop_last(), bound);
        assert(terms.len() * bound == (terms.len() - 1) * bound + bound) by (nonlinear_arith);
    } else {
        assert(terms.len() * bound == 0) by (nonlinear_arith)
            requires
                terms.len() == 0,
        ;
    }
}

/// A vote, accepted or refused, keeps the votes adding up: nobody is counted twice, and each tally
/// is the sum of the votes of its kind. In a quadratic vote it also keeps the votes covered by the
/// supply.
pub proof fn votes_keep_adding_up(
    m: GovernanceModel,
    now: u64,
    id: u64,
    voter: Address,
    kind: VoteType,
)
    requires
        m.proposals.contains_key(id),
        m.proposals[id].votes_add_up(),
    ensures
        m.after_vote(now, id, voter, kind).proposals[id].votes_add_up(),
        m.proposals[id].votes_are_covered(m.snapshots[id]) ==> m.after_vote(
            now,
            id,
            voter,
            kind,
        ).proposals[id].votes_are_covered(m.after_vote(now, id, voter, kind).snapshots[id]),
{
    let p = m.proposals[id];
    if m.vote_refusal(now, id, voter, kind) is None && p.id == id {
        lemma_one_more_vote_adds_up(p, m.ballot(now, id, voter, kind));
        let q = p.with_vote(m.ballot(now, id, voter, kind));
        let snapshot = m.snapshots[id];
        if p.votes_are_covered(snapshot) && p.use_quadratic_voting {
            let holders = choose|holders: Seq<Address>| #[trigger]
                p.supply_covers(holders, snapshot);
            assert(q.supply_covers(holders, snapshot));
        }
    }
}

/// A new proposal has no votes, which add up, and a supply that covers the powers on record for it.
pub proof fn new_proposals_add_up(
    m: GovernanceModel,
    now: u64,
    proposer: Address,
    action: ActionModel,
    title: Seq<u8>,
    description: Seq<u8>,
    payload: Seq<u8>,
    category: ProposalCategory,
    quadratic: bool,
)
    ensures
        ({
            let p = m.new_proposal(
                now,
                proposer,
                action,
                title,
                description,
                payload,
                category,
                quadratic,
            );
            p.votes_add_up() && p.votes_are_covered(m.power_snapshot())
        }),
{
    let p = m.new_proposal(
        now,
        proposer,
        action,
        title,
        description,
        payload,
        category,
        quadratic,
    );
    assert forall|kind: VoteType| #[trigger] p.tally(kind) == total(p.contributions(kind)) by {
        assert(p.contributions(kind) =~= Seq::<int>::empty());
    }
    quadratic_supply_is_the_sum_of_recorded_weights(m);
    if quadratic {
        assert(p.supply_covers(m.holders, m.power_snapshot()));
    }
}

/// From empty books on, whatever is requested and whatever happens to stakes, balances and
/// everything else outside the books meanwhile: on every proposal nobody is counted twice, each
/// tally is the sum of the votes of its kind, and the votes of a quadratic vote stay within its
/// supply.
pub proof fn votes_add_up_in_every_history(
    states: Seq<GovernanceModel>,
    requests: Seq<Request>,
    i: int,
    id: u64,
)
    requires
        is_history(states, requests),
        0 <= i < states.len(),
        states[i].proposals.contains_key(id),
        states[i].proposals[id].voter_list.len() <= u32::MAX,
    ensures
        states[i].proposals[id].votes_add_up(),
        states[i].proposals[id].use_quadratic_voting ==> states[i].proposals[id].votes_for
            + states[i].proposals[id].votes_against + states[i].proposals[id].votes_abstain
            <= states[i].proposals[id].quadratic_total_supply,
{
    every_history_keeps_the_books_in_order(states, requests, i);
    let p = states[i].proposals[id];
    assert(p.is_consistent(id, states[i].snapshots[id]));
    if p.use_quadratic_voting {
        assert(p.votes_are_covered(states[i].snapshots[id])) by {
            assert forall|a: Address| #[trigger] p.voters.contains_key(a) implies {
                &&& states[i].snapshots[id].contains_key(a)
                &&& states[i].snapshots[id][a] > 0
                &&& p.voters[a].voting_power == p.weight(states[i].snapshots[id][a])
            } by {
                assert(p.vote_is_in_order(a, states[i].snapshots[id]));
            }
        }
        quadratic_turnout_is_within_the_supply(p, states[i].snapshots[id]);
    }
}

/// The quadratic supply put on record for a proposal is the sum of the floors of the square roots of
/// the powers put on record for it, over all holders, held within an `i128`.
pub proof fn quadratic_supply_is_the_sum_of_recorded_weights(m: GovernanceModel)
    ensures
        m.quadratic_supply() == clamp_i128(total(recorded_weights(m.holders, m.power_snapshot()))),
{
    assert(recorded_weights(m.holders, m.power_snapshot()) =~= m.quadratic_weights());
}

/// Where delegations are in order and stakes are not negative, the power of an account is the sum of
/// its own stake, unless it has lent that out, and of all that was lent to it, held within an `i128`.
pub proof fn power_is_stake_plus_loans(m: GovernanceModel, account: Address)
    requires
        m.delegations_are_consistent(),
        m.staked_by(account) >= 0,
    ensures
        total(m.received(account)) >= 0,
        m.effective_power(account) == clamp_i128(m.own_power(account) + total(m.received(account))),
{
    assert forall|i: int| 0 <= i < m.delegators.len() implies m.received(account)[i] >= 0 by {
        assert(m.delegators.contains(m.delegators[i]));
    }
    saturating_total_of_nonnegative_terms(m.received(account));
}

/// Lending moves power from one account to another: the lender keeps none of its stake, the
/// borrower gains exactly that stake, and nobody else gains or loses.
pub proof fn delegation_moves_the_stake(
    m: GovernanceModel,
    delegator: Address,
    delegate: Address,
    other: Address,
)
    requires
        m.delegations_are_consistent(),
        m.delegation_refusal(delegator, delegate) is None,
    ensures
        ({
            let n = m.after_delegation(delegator, delegate);
            &&& m.own_power(delegator) == m.staked_by(delegator)
            &&& n.own_power(delegator) == 0
            &&& total(n.received(delegate)) == total(m.received(delegate)) + m.staked_by(delegator)
            &&& other != delegator ==> n.own_power(other) == m.own_power(other)
            &&& other != delegate ==> total(n.received(other)) == total(m.received(other))
        }),
{
    let n = m.after_delegation(delegator, delegate);
    lemma_received_after_delegation(m, delegator, delegate, delegate);
    lemma_received_after_delegation(m, delegator, delegate, other);
}

proof fn lemma_received_after_delegation(
    m: GovernanceModel,
    delegator: Address,
    delegate: Address,
    account: Address,
)
    requires
        m.delegations_are_consistent(),
        m.delegation_refusal(delegator, delegate) is None,
    ensures
        total(m.after_delegation(delegator, delegate).received(account)) == total(
            m.received(account),
        ) + if account == delegate {
            m.staked_by(delegator) as int
        } else {
            0
        },
{
    let n = m.after_delegation(delegator, delegate);
    let gain = if account == delegate {
        m.staked_by(delegator) as int
    } else {
        0
    };
    let before = m.received(account);
    if m.delegators.contains(delegator) {
        let k = choose|k: int| 0 <= k < m.delegators.len() && m.delegators[k] == delegator;
        assert(before[k] == 0);
        assert(n.received(account) =~= before.update(k, gain));
        total_with_a_change(before, k, gain);
    } else {
        assert forall|i: int| 0 <= i < m.delegators.len() implies m.delegators[i] != delegator by {
            assert(m.delegators.contains(m.delegators[i]));
        }
        assert(n.received(account) =~= before.push(gain));
        total_of_one_more(before, gain);
    }
}

/// Taking power back undoes lending it: every account has the power that it had before.
pub proof fn undelegation_undoes_delegation(
    m: GovernanceModel,
    delegator: Address,
    delegate: Address,
    account: Address,
)
    requires
        m.delegation_refusal(delegator, delegate) is None,
    ensures
        m.after_delegation(delegator, delegate).after_undelegation(delegator).effective_power(
            account,
        ) == m.effective_power(account),
{
    let n = m.after_delegation(delegator, delegate).after_undelegation(delegator);
    let before = m.received(account);
    assert(!n.has_delegated(delegator));
    if m.delegators.contains(delegator) {
        assert(n.received(account) =~= before);
    } else {
        assert forall|i: int| 0 <= i < m.delegators.len() implies m.delegators[i] != delegator by {
            assert(m.delegators.contains(m.delegators[i]));
        }
        assert(n.received(account) =~= before.push(0));
        total_of_one_more(before, 0);
        assert(fits_i128(saturating_total(before)));
    }
}

/// The listing holds every proposal, in the order of creation.
pub proof fn listing_is_complete(m: GovernanceModel)
    requires
        m.is_consistent(),
    ensures
        m.listed_proposals().len() == m.proposal_ids.len(),
        forall|i: int|
            0 <= i < m.proposal_ids.len() ==> #[trigger] m.listed_proposals()[i]
                == m.proposals[m.proposal_ids[i]],
        forall|id: u64| #[trigger]
            m.proposals.contains_key(id) ==> m.listed_proposals().contains(m.proposals[id]),
{
    assert forall|i: int| 0 <= i < m.proposal_ids.len() implies m.proposals.contains_key(
        #[trigger] m.proposal_ids[i],
    ) by {
        assert(m.proposal_ids.contains(m.proposal_ids[i]));
    }
    lemma_proposals_at(m.proposals, m.proposal_ids);
    assert forall|id: u64| #[trigger]
        m.proposals.contains_key(id) implies m.listed_proposals().contains(m.proposals[id]) by {
        assert(m.proposal_ids.contains(id));
        let k = choose|k: int| 0 <= k < m.proposal_ids.len() && m.proposal_ids[k] == id;
        assert(m.listed_proposals()[k] == m.proposals[id]);
    }
}

proof fn lemma_proposals_at(proposals: Map<u64, ProposalModel>, ids: Seq<u64>)
    requires
        forall|i: int| 0 <= i < ids.len() ==> proposals.contains_key(#[trigger] ids[i]),
    ensures
        proposals_at(proposals, ids).len() == ids.len(),
        forall|i: int|
            0 <= i < ids.len() ==> #[trigger] proposals_at(proposals, ids)[i] == proposals[ids[i]],
    decreases ids.len(),
{
    if ids.len() > 0 {
        let first = ids.drop_last();
        assert forall|i: int| 0 <= i < first.len() implies proposals.contains_key(
            #[trigger] first[i],
        ) by {
            assert(first[i] == ids[i]);
        }
        lemma_proposals_at(proposals, first);
        assert(proposals.contains_key(ids[ids.len() - 1]));
    }
}

/// No proposal is counted under two statuses.
pub proof fn status_counts_are_disjoint(all: Seq<ProposalModel>)
    ensures
        all.filter(open_ones()).len() + all.filter(in_status(ProposalStatus::Succeeded)).len()
            + all.filter(in_status(ProposalStatus::Failed)).len() + all.filter(
            in_status(ProposalStatus::Executed),
        ).len() <= all.len(),
    decreases all.len(),
{
    reveal(Seq::filter);
    if all.len() > 0 {
        status_counts_are_disjoint(all.drop_last());
    }
}

} // verus!
