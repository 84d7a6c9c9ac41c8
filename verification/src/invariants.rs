//! What holds of every state that requests lead to.

use vstd::prelude::*;

use crate::collections::amount_of;
use crate::math::{
    clamp_i128, fits_i128, floor_sqrt, quadratic_weight_is_positive_and_bounded, total, total_of_one_more,
};
use crate::proposals::lemma_snapshot_frame;
use crate::state::GovernanceModel;
use crate::types::{
    ActionModel, Address, CategoryThreshold, GovernanceConfig, GovernanceError, ProposalCategory,
    ProposalModel, ProposalStatus, Vote, VoteDelegation, VoteType,
};

verus! {

/// A request to governance, with what came with it.
pub enum Request {
    Create {
        now: u64,
        proposer: Address,
        action: ActionModel,
        title: Seq<u8>,
        description: Seq<u8>,
        payload: Seq<u8>,
        category: ProposalCategory,
        quadratic: bool,
        title_clean: bool,
        description_clean: bool,
    },
    Vote { now: u64, id: u64, voter: Address, kind: VoteType },
    Finalize { now: u64, id: u64 },
    Execute { now: u64, id: u64, executor: Address },
    Act { id: u64 },
    MarkExecuted { now: u64, id: u64 },
    Cancel { id: u64, canceller: Address },
    Withdraw { now: u64, id: u64, account: Address },
    Delegate { delegator: Address, delegate: Address },
    Undelegate { delegator: Address },
    Configure { admin_check: Result<(), GovernanceError>, config: GovernanceConfig },
    SetThresholds {
        admin_check: Result<(), GovernanceError>,
        category: ProposalCategory,
        threshold: CategoryThreshold,
    },
}

impl GovernanceModel {
    /// The state after a request, granted or not: what the contract of the function that serves it
    /// says.
    pub open spec fn after(self, request: Request) -> GovernanceModel {
        match request {
            Request::Create {
                now,
                proposer,
                action,
                title,
                description,
                payload,
                category,
                quadratic,
                title_clean,
                description_clean,
            } => self.after_creation(
                now,
                proposer,
                action,
                title,
                description,
                payload,
                category,
                quadratic,
                title_clean,
                description_clean,
            ),
            Request::Vote { now, id, voter, kind } => self.after_vote(now, id, voter, kind),
            Request::Finalize { now, id } => self.after_finalization(now, id),
            Request::Execute { now, id, executor } => self.after_execution(now, id, executor),
            Request::Act { id } => self.after_action(id),
            Request::MarkExecuted { now, id } => self.after_marking(now, id),
            Request::Cancel { id, canceller } => self.after_cancellation(id, canceller),
            Request::Withdraw { now, id, account } => self.after_withdrawal(now, id, account),
            Request::Delegate { delegator, delegate } => self.after_delegation(delegator, delegate),
            Request::Undelegate { delegator } => self.after_undelegation(delegator),
            Request::Configure { admin_check, config } => self.after_configuration(
                admin_check,
                config,
            ),
            Request::SetThresholds { admin_check, category, threshold } =>
                self.after_threshold_setting(admin_check, category, threshold),
        }
    }

    /// Why a request is refused, if there is a reason: the error that the function that serves it
    /// returns.
    pub open spec fn refusal(self, request: Request) -> Option<GovernanceError> {
        match request {
            Request::Create {
                proposer,
                action,
                title,
                description,
                payload,
                title_clean,
                description_clean,
                ..
            } => self.creation_refusal(
                proposer,
                action,
                title,
                description,
                payload,
                title_clean,
                description_clean,
            ),
            Request::Vote { now, id, voter, kind } => self.vote_refusal(now, id, voter, kind),
            Request::Finalize { now, id } => self.finalization_refusal(now, id),
            Request::Execute { now, id, .. } => self.execution_failure(now, id),
            Request::Act { id } => self.numbered_action_failure(id),
            Request::MarkExecuted { id, .. } => self.marking_refusal(id),
            Request::Cancel { id, canceller } => self.cancellation_refusal(id, canceller),
            Request::Withdraw { id, account, .. } => self.withdrawal_refusal(id, account),
            Request::Delegate { delegator, delegate } => self.delegation_refusal(
                delegator,
                delegate,
            ),
            Request::Undelegate { delegator } => self.undelegation_refusal(delegator),
            Request::Configure { admin_check, config } => self.configuration_refusal(
                admin_check,
                config,
            ),
            Request::SetThresholds { admin_check, threshold, .. } => self.threshold_setting_refusal(
                admin_check,
                threshold,
            ),
        }
    }

    /// The books are in order: every proposal is listed once, under its own number, which is below
    /// the next one; its votes agree with its tallies and with the powers on record for it; and the
    /// delegations agree with the list of delegators.
    pub open spec fn is_consistent(self) -> bool {
        &&& self.proposal_ids.no_duplicates()
        &&& forall|id: u64| #[trigger]
            self.proposal_ids.contains(id) <==> self.proposals.contains_key(id)
        &&& forall|id: u64| #[trigger]
            self.proposals.contains_key(id) ==> {
                &&& id < self.next_proposal_id
                &&& self.snapshots.contains_key(id)
                &&& self.proposals[id].is_consistent(id, self.snapshots[id])
            }
        &&& self.delegations_are_consistent()
    }
}

impl ProposalModel {
    /// What each vote in the order of the voters adds to the tally of a kind.
    pub open spec fn contributions(self, kind: VoteType) -> Seq<int> {
        self.voter_list.map_values(
            |a: Address|
                if self.voters[a].vote_type == kind {
                    self.voters[a].voting_power as int
                } else {
                    0
                },
        )
    }

    /// The vote is one that `voter` could cast: in time, and with the weight of a positive power on
    /// record.
    pub open spec fn vote_is_in_order(
        self,
        voter: Address,
        snapshot: Map<Address, i128>,
    ) -> bool {
        let vote = self.voters[voter];
        &&& vote.voter == voter
        &&& snapshot.contains_key(voter)
        &&& snapshot[voter] > 0
        &&& vote.voting_power == self.weight(snapshot[voter])
        &&& vote.voting_power > 0
        &&& self.discussion_ends_at <= vote.timestamp
        &&& self.voting_starts <= vote.timestamp < self.voting_ends
    }

    /// The quadratic supply of the proposal is the sum of the weights that the given accounts have
    /// by the powers on record, and they are all that have any.
    pub open spec fn supply_covers(
        self,
        holders: Seq<Address>,
        snapshot: Map<Address, i128>,
    ) -> bool {
        &&& self.quadratic_total_supply == clamp_i128(total(recorded_weights(holders, snapshot)))
        &&& forall|a: Address| #[trigger] snapshot.contains_key(a) ==> holders.contains(a)
    }

    /// Every voter is listed once and has one vote, and each tally is the sum of the votes of its
    /// kind.
    pub open spec fn votes_add_up(self) -> bool {
        &&& self.voter_list.no_duplicates()
        &&& forall|a: Address| #[trigger]
            self.voter_list.contains(a) <==> self.voters.contains_key(a)
        &&& forall|kind: VoteType| #[trigger] self.tally(kind) == total(self.contributions(kind))
    }

    /// Where voting is quadratic, every vote has the weight of a positive power on record, and the
    /// supply covers the powers on record.
    pub open spec fn votes_are_covered(self, snapshot: Map<Address, i128>) -> bool {
        self.use_quadratic_voting ==> {
            &&& forall|a: Address| #[trigger]
                self.voters.contains_key(a) ==> {
                    &&& snapshot.contains_key(a)
                    &&& snapshot[a] > 0
                    &&& self.voters[a].voting_power == self.weight(snapshot[a])
                }
            &&& exists|holders: Seq<Address>| #[trigger] self.supply_covers(holders, snapshot)
        }
    }

    /// The proposal is stored under its number; every voter is listed once and has one vote, which
    /// is in order; each tally is the sum of the votes of its kind; nobody has voted on a pending
    /// proposal; it has a time of execution exactly where it was carried out; and where voting is
    /// quadratic, its supply covers the powers on record.
    pub open spec fn is_consistent(self, id: u64, snapshot: Map<Address, i128>) -> bool {
        &&& self.id == id
        &&& self.votes_add_up()
        &&& forall|a: Address| #[trigger]
            self.voters.contains_key(a) ==> self.vote_is_in_order(a, snapshot)
        &&& self.status == ProposalStatus::Pending ==> self.voter_list.len() == 0
        &&& self.status == ProposalStatus::Executed <==> self.executed_at is Some
        &&& self.use_quadratic_voting ==> exists|holders: Seq<Address>| #[trigger]
            self.supply_covers(holders, snapshot)
    }
}

/// The quadratic weight of each of the accounts by the powers on record.
pub open spec fn recorded_weights(accounts: Seq<Address>, snapshot: Map<Address, i128>) -> Seq<
    int,
> {
    accounts.map_values(|a: Address| floor_sqrt(amount_of(snapshot, a) as int))
}

/// Two states agree on the books: on proposals, powers on record and delegations.
pub open spec fn same_books(a: GovernanceModel, b: GovernanceModel) -> bool {
    &&& a.proposals == b.proposals
    &&& a.proposal_ids == b.proposal_ids
    &&& a.next_proposal_id == b.next_proposal_id
    &&& a.snapshots == b.snapshots
    &&& a.delegations == b.delegations
    &&& a.delegators == b.delegators
}

/// A state without proposals and delegations, as those of an empty storage are, is consistent.
pub proof fn empty_books_are_consistent(m: GovernanceModel)
    requires
        books_are_empty(m),
    ensures
        m.is_consistent(),
{
}

/// Consistency is a matter of the books.
proof fn lemma_same_books(a: GovernanceModel, b: GovernanceModel)
    requires
        same_books(a, b),
        a.is_consistent(),
    ensures
        b.is_consistent(),
{
}

proof fn lemma_storing_keeps_consistency(m: GovernanceModel, p: ProposalModel)
    requires
        m.is_consistent(),
        m.proposals.contains_key(p.id),
        p.is_consistent(p.id, m.snapshots[p.id]),
    ensures
        m.storing(p).is_consistent(),
{
    let n = m.storing(p);
    assert(n.proposals.dom() =~= m.proposals.dom());
    assert forall|id: u64| #[trigger] n.proposals.contains_key(id) implies {
        &&& id < n.next_proposal_id
        &&& n.snapshots.contains_key(id)
        &&& n.proposals[id].is_consistent(id, n.snapshots[id])
    } by {
        assert(m.proposals.contains_key(id));
    }
    assert forall|id: u64| #[trigger]
        n.proposal_ids.contains(id) <==> n.proposals.contains_key(id) by {
        assert(m.proposal_ids.contains(id) <==> m.proposals.contains_key(id));
    }
}

/// A change of status leaves the votes in order.
proof fn lemma_restatus_is_consistent(
    p: ProposalModel,
    q: ProposalModel,
    id: u64,
    snapshot: Map<Address, i128>,
)
    requires
        p.is_consistent(id, snapshot),
        q == (ProposalModel { status: q.status, executed_at: q.executed_at, ..p }),
        q.status == ProposalStatus::Pending ==> p.status == ProposalStatus::Pending,
        q.status == ProposalStatus::Executed <==> q.executed_at is Some,
    ensures
        q.is_consistent(id, snapshot),
{
    assert forall|a: Address| #[trigger]
        q.voters.contains_key(a) implies q.vote_is_in_order(a, snapshot) by {
        assert(p.voters.contains_key(a));
        assert(p.vote_is_in_order(a, snapshot));
    }
    assert forall|kind: VoteType| #[trigger] q.tally(kind) == total(q.contributions(kind)) by {
        assert(p.tally(kind) == total(p.contributions(kind)));
        assert(q.contributions(kind) =~= p.contributions(kind));
    }
    if p.use_quadratic_voting {
        let holders = choose|holders: Seq<Address>| #[trigger] p.supply_covers(holders, snapshot);
        assert(q.supply_covers(holders, snapshot));
    }
    assert forall|a: Address| #[trigger]
        q.voter_list.contains(a) <==> q.voters.contains_key(a) by {
        assert(p.voter_list.contains(a) <==> p.voters.contains_key(a));
    }
}

/// One more vote, of somebody who has not voted yet and within the bounds of the tally, leaves the
/// votes adding up.
pub(crate) proof fn lemma_one_more_vote_adds_up(p: ProposalModel, vote: Vote)
    requires
        p.votes_add_up(),
        !p.voters.contains_key(vote.voter),
        fits_i128(p.tally(vote.vote_type) + vote.voting_power),
    ensures
        p.with_vote(vote).votes_add_up(),
{
    let q = p.with_vote(vote);
    let voter = vote.voter;
    assert(!p.voter_list.contains(voter));
    assert forall|a: Address| #[trigger]
        q.voter_list.contains(a) <==> q.voters.contains_key(a) by {
        assert(p.voter_list.contains(a) <==> p.voters.contains_key(a));
        if p.voter_list.contains(a) {
            let k = choose|k: int| 0 <= k < p.voter_list.len() && p.voter_list[k] == a;
            assert(q.voter_list[k] == a);
        }
        assert(q.voter_list[p.voter_list.len() as int] == voter);
    }
    assert forall|k: VoteType| #[trigger] q.tally(k) == total(q.contributions(k)) by {
        assert(p.tally(k) == total(p.contributions(k)));
        let added = if k == vote.vote_type {
            vote.voting_power as int
        } else {
            0
        };
        assert(q.contributions(k) =~= p.contributions(k).push(added)) by {
            assert forall|i: int| 0 <= i < p.voter_list.len() implies p.voter_list[i] != voter by {
                assert(p.voter_list.contains(p.voter_list[i]));
            }
        }
        total_of_one_more(p.contributions(k), added);
    }
}

/// A vote that is accepted leaves the votes in order.
proof fn lemma_vote_is_consistent(m: GovernanceModel, now: u64, id: u64, voter: Address, kind: VoteType)
    requires
        m.is_consistent(),
        m.vote_refusal(now, id, voter, kind) is None,
    ensures
        m.proposals[id].with_vote(m.ballot(now, id, voter, kind)).is_consistent(
            id,
            m.snapshots[id],
        ),
{
    let p = m.proposals[id];
    let snapshot = m.snapshots[id];
    let vote = m.ballot(now, id, voter, kind);
    let q = p.with_vote(vote);
    assert(m.proposals.contains_key(id));
    assert(p.is_consistent(id, snapshot));
    quadratic_weight_is_positive_and_bounded(snapshot[voter] as int);
    lemma_one_more_vote_adds_up(p, vote);
    assert forall|a: Address| #[trigger]
        q.voters.contains_key(a) implies q.vote_is_in_order(a, snapshot) by {
        if a != voter {
            assert(p.voters.contains_key(a));
            assert(p.vote_is_in_order(a, snapshot));
        }
    }
    if p.use_quadratic_voting {
        let holders = choose|holders: Seq<Address>| #[trigger] p.supply_covers(holders, snapshot);
        assert(q.supply_covers(holders, snapshot));
    }
}

proof fn lemma_creation_keeps_consistency(m: GovernanceModel, p: ProposalModel)
    requires
        m.is_consistent(),
        m.next_proposal_id < u64::MAX,
        p.id == m.next_proposal_id,
        p.voters == Map::<Address, Vote>::empty(),
        p.voter_list == Seq::<Address>::empty(),
        p.votes_for == 0,
        p.votes_against == 0,
        p.votes_abstain == 0,
        p.status == ProposalStatus::Pending,
        p.executed_at is None,
        p.use_quadratic_voting ==> p.quadratic_total_supply == m.quadratic_supply(),
    ensures
        m.created(p).is_consistent(),
{
    let snapshot = m.power_snapshot();
    assert(recorded_weights(m.holders, snapshot) =~= m.quadratic_weights());
    if p.use_quadratic_voting {
        assert(p.supply_covers(m.holders, snapshot));
    }
    let n = m.created(p);
    let new = m.next_proposal_id;
    assert(!m.proposals.contains_key(new));
    assert(!m.proposal_ids.contains(new));
    assert forall|id: u64| #[trigger]
        n.proposal_ids.contains(id) <==> n.proposals.contains_key(id) by {
        assert(m.proposal_ids.contains(id) <==> m.proposals.contains_key(id));
        if m.proposal_ids.contains(id) {
            let k = choose|k: int| 0 <= k < m.proposal_ids.len() && m.proposal_ids[k] == id;
            assert(n.proposal_ids[k] == id);
        }
        assert(n.proposal_ids[m.proposal_ids.len() as int] == new);
    }
    assert forall|kind: VoteType| #[trigger] p.tally(kind) == total(p.contributions(kind)) by {
        assert(p.contributions(kind) =~= Seq::<int>::empty());
    }
    assert forall|id: u64| #[trigger] n.proposals.contains_key(id) implies {
        &&& id < n.next_proposal_id
        &&& n.snapshots.contains_key(id)
        &&& n.proposals[id].is_consistent(id, n.snapshots[id])
    } by {
        if id != new {
            assert(m.proposals.contains_key(id));
        }
    }
}

proof fn lemma_delegation_keeps_consistency(m: GovernanceModel, delegator: Address, delegate: Address)
    requires
        m.delegations_are_consistent(),
        m.delegation_refusal(delegator, delegate) is None,
    ensures
        m.delegated(delegator, delegate).delegations_are_consistent(),
{
    let n = m.delegated(delegator, delegate);
    assert forall|a: Address| #[trigger]
        n.delegators.contains(a) <==> n.delegations.contains_key(a) by {
        assert(m.delegators.contains(a) <==> m.delegations.contains_key(a));
        if m.delegators.contains(a) {
            let k = choose|k: int| 0 <= k < m.delegators.len() && m.delegators[k] == a;
            assert(n.delegators[k] == a);
        }
        if !m.delegators.contains(delegator) {
            assert(n.delegators[m.delegators.len() as int] == delegator);
        }
    }
}

proof fn lemma_execution_keeps_consistency(m: GovernanceModel, now: u64, id: u64)
    requires
        m.is_consistent(),
    ensures
        m.execution_tried(now, id).is_consistent(),
{
    let p = m.proposals[id];
    if m.execution_refusal(now, id) is None {
        let acted = m.acted(p.action);
        assert(same_books(m, acted));
        assert(acted.is_consistent());
        if m.execution_failure(now, id) is None {
            assert(m.proposals.contains_key(id));
            lemma_restatus_is_consistent(p, p.executed(now), id, m.snapshots[id]);
            lemma_storing_keeps_consistency(acted, p.executed(now));
        }
    }
}

proof fn lemma_vote_keeps_the_books_in_order(m: GovernanceModel, now: u64, id: u64, voter: Address, kind: VoteType)
    requires
        m.is_consistent(),
    ensures
        m.after_vote(now, id, voter, kind).is_consistent(),
{
    let d = m.demanding(voter);
    lemma_same_books(m, d);
    if m.vote_refusal(now, id, voter, kind) is None {
        lemma_vote_is_consistent(m, now, id, voter, kind);
        assert(m.proposals.contains_key(id));
        let q = m.proposals[id].with_vote(m.ballot(now, id, voter, kind));
        lemma_storing_keeps_consistency(d, q);
        lemma_same_books(d.storing(q), m.after_vote(now, id, voter, kind));
    }
}

proof fn lemma_decision_keeps_the_books_in_order(m: GovernanceModel, now: u64, id: u64)
    requires
        m.is_consistent(),
    ensures
        m.after_finalization(now, id).is_consistent(),
{
    if m.finalization_refusal(now, id) is None {
        let p = m.proposals[id];
        assert(m.proposals.contains_key(id));
        let q = p.with_status(m.decision(p));
        lemma_restatus_is_consistent(p, q, id, m.snapshots[id]);
        lemma_storing_keeps_consistency(m, q);
        let decided = m.decided(id);
        lemma_same_books(m.storing(q), decided);
        let d = decided.demanding(p.proposer);
        lemma_same_books(decided, d);
        lemma_execution_keeps_consistency(d, now, id);
    }
}

proof fn lemma_withdrawal_keeps_the_books_in_order(m: GovernanceModel, now: u64, id: u64, account: Address)
    requires
        m.is_consistent(),
    ensures
        m.after_withdrawal(now, id, account).is_consistent(),
{
    let d = m.demanding(account);
    lemma_same_books(m, d);
    if m.withdrawal_refusal(id, account) is None {
        let p = m.proposals[id];
        assert(m.proposals.contains_key(id));
        let q = p.with_status(ProposalStatus::Withdrawn);
        lemma_restatus_is_consistent(p, q, id, m.snapshots[id]);
        lemma_storing_keeps_consistency(d, q);
        lemma_same_books(d.storing(q), m.after_withdrawal(now, id, account));
    }
}

proof fn lemma_cancellation_keeps_the_books_in_order(m: GovernanceModel, id: u64, canceller: Address)
    requires
        m.is_consistent(),
    ensures
        m.after_cancellation(id, canceller).is_consistent(),
{
    let d = m.demanding(canceller);
    lemma_same_books(m, d);
    if m.cancellation_refusal(id, canceller) is None {
        let p = m.proposals[id];
        assert(m.proposals.contains_key(id));
        let q = p.with_status(ProposalStatus::Cancelled);
        lemma_restatus_is_consistent(p, q, id, m.snapshots[id]);
        lemma_storing_keeps_consistency(d, q);
    }
}

proof fn lemma_marking_keeps_the_books_in_order(m: GovernanceModel, now: u64, id: u64)
    requires
        m.is_consistent(),
    ensures
        m.after_marking(now, id).is_consistent(),
{
    if m.marking_refusal(id) is None {
        let p = m.proposals[id];
        assert(m.proposals.contains_key(id));
        lemma_restatus_is_consistent(p, p.executed(now), id, m.snapshots[id]);
        lemma_storing_keeps_consistency(m, p.executed(now));
    }
}

/// Every request leaves the books in order. The number of proposals is limited: the last number is
/// never given out.
pub proof fn every_request_keeps_the_books_in_order(m: GovernanceModel, request: Request)
    requires
        m.is_consistent(),
        request is Create ==> m.next_proposal_id < u64::MAX,
    ensures
        m.after(request).is_consistent(),
{
    match request {
        Request::Create {
            now,
            proposer,
            action,
            title,
            description,
            payload,
            category,
            quadratic,
            title_clean,
            description_clean,
        } => {
            let d = m.demanding(proposer);
            lemma_same_books(m, d);
            if m.creation_refusal(
                proposer,
                action,
                title,
                description,
                payload,
                title_clean,
                description_clean,
            ) is None {
                let p = m.new_proposal(
                    now,
                    proposer,
                    action,
                    title,
                    description,
                    payload,
                    category,
                    quadratic,
                );
                lemma_snapshot_frame(m, d);
                lemma_creation_keeps_consistency(d, p);
            }
        },
        Request::Vote { now, id, voter, kind } => {
            lemma_vote_keeps_the_books_in_order(m, now, id, voter, kind);
        },
        Request::Finalize { now, id } => {
            lemma_decision_keeps_the_books_in_order(m, now, id);
        },
        Request::Execute { now, id, executor } => {
            let d = m.demanding(executor);
            lemma_same_books(m, d);
            lemma_execution_keeps_consistency(d, now, id);
        },
        Request::Act { id } => {
            lemma_same_books(m, m.after(request));
        },
        Request::MarkExecuted { now, id } => {
            lemma_marking_keeps_the_books_in_order(m, now, id);
        },
        Request::Cancel { id, canceller } => {
            lemma_cancellation_keeps_the_books_in_order(m, id, canceller);
        },
        Request::Withdraw { now, id, account } => {
            lemma_withdrawal_keeps_the_books_in_order(m, now, id, account);
        },
        Request::Delegate { delegator, delegate } => {
            if m.delegation_refusal(delegator, delegate) is None {
                let d = m.demanding(delegator);
                lemma_same_books(m, d);
                lemma_delegation_keeps_consistency(d, delegator, delegate);
            }
        },
        Request::Undelegate { delegator } => {
            let n = m.after(request);
            assert(n.delegations.dom() =~= m.delegations.dom());
            assert forall|a: Address| #[trigger]
                n.delegators.contains(a) <==> n.delegations.contains_key(a) by {
                assert(m.delegators.contains(a) <==> m.delegations.contains_key(a));
            }
        },
        Request::Configure { admin_check, config } => {
            lemma_same_books(m, m.after(request));
        },
        Request::SetThresholds { admin_check, category, threshold } => {
            lemma_same_books(m, m.after(request));
        },
    }
}

/// The books are empty, as those of an empty storage are.
pub open spec fn books_are_empty(m: GovernanceModel) -> bool {
    &&& m.proposals == Map::<u64, ProposalModel>::empty()
    &&& m.proposal_ids == Seq::<u64>::empty()
    &&& m.delegations == Map::<Address, VoteDelegation>::empty()
    &&& m.delegators == Seq::<Address>::empty()
}

/// The states begin with empty books, and each of the others has the books that one request to the
/// state before it leads to. Everything outside the books may change in between. The last number is
/// never given out.
pub open spec fn is_history(states: Seq<GovernanceModel>, requests: Seq<Request>) -> bool {
    &&& states.len() == requests.len() + 1
    &&& books_are_empty(states[0])
    &&& forall|i: int|
        0 <= i < requests.len() ==> {
            &&& #[trigger] requests[i] is Create ==> states[i].next_proposal_id < u64::MAX
            &&& same_books(states[i].after(requests[i]), states[i + 1])
        }
}

/// In every history, the books of every state are in order.
pub proof fn every_history_keeps_the_books_in_order(
    states: Seq<GovernanceModel>,
    requests: Seq<Request>,
    i: int,
)
    requires
        is_history(states, requests),
        0 <= i < states.len(),
    ensures
        states[i].is_consistent(),
    decreases i,
{
    if i == 0 {
        empty_books_are_consistent(states[0]);
    } else {
        every_history_keeps_the_books_in_order(states, requests, i - 1);
        let request = requests[i - 1];
        every_request_keeps_the_books_in_order(states[i - 1], request);
        assert(same_books(states[i - 1].after(request), states[i]));
    }
}

} // verus!
