//! Creating, reading and storing proposals.

use soroban_sdk::Env;
use vstd::prelude::*;

use crate::bytes::ByteString;
use crate::collections::{Amounts, IdList};
use crate::delegation::{get_effective_voting_power, power_depends_on_stakes_and_delegations};
use crate::math::{clamp_i128, floor_sqrt, floor_sqrt_exists, isqrt, saturating_add, total};
use crate::meaning::{in_force, is_after};
use crate::state::{get_governance_config, Governance, GovernanceModel};
use crate::tables::Ballots;
use crate::types::{
    ActionModel, Address, Event, EventModel, GovernanceConfig, GovernanceError, Proposal,
    ProposalCategory, ProposalModel, ProposalStatus, ProposalType,
};
use crate::validation::{
    change_is_measurable, payload_fits, validate_execution_payload, validate_proposal,
};

verus! {

/// The longest title, in bytes, that the sanitizer is asked to let through.
pub const TITLE_LIMIT: u32 = 256;

/// The longest description, in bytes, that the sanitizer is asked to let through.
pub const DESCRIPTION_LIMIT: u32 = 4096;

/// The time `duration` after `time`, or the last time there is.
pub open spec fn later(time: u64, duration: u64) -> u64 {
    if time + duration > u64::MAX {
        u64::MAX
    } else {
        (time + duration) as u64
    }
}

impl GovernanceModel {
    /// The voting power of every holder that has any.
    pub open spec fn power_snapshot(self) -> Map<Address, i128> {
        Map::new(
            |a: Address| self.holders.contains(a) && self.effective_power(a) > 0,
            |a: Address| self.effective_power(a) as i128,
        )
    }

    /// The quadratic weight of each holder, in their order.
    pub open spec fn quadratic_weights(self) -> Seq<int> {
        self.holders.map_values(|h: Address| floor_sqrt(self.effective_power(h)))
    }

    /// The sum of the quadratic weights of all holders, held within an `i128`.
    pub open spec fn quadratic_supply(self) -> int {
        clamp_i128(total(self.quadratic_weights()))
    }

    /// Why a proposal cannot be created before its action is looked at, if there is a reason: its
    /// texts are empty or were not let through, or the proposer lacks the power.
    pub open spec fn early_creation_refusal(
        self,
        proposer: Address,
        title: Seq<u8>,
        description: Seq<u8>,
        title_clean: bool,
        description_clean: bool,
    ) -> Option<GovernanceError> {
        if title.len() == 0 || description.len() == 0 || !title_clean || !description_clean {
            Some(GovernanceError::InvalidProposal)
        } else if self.effective_power(proposer) < self.rules().min_proposal_threshold {
            Some(GovernanceError::NoVotingPower)
        } else {
            None
        }
    }

    /// Why a proposal cannot be created, if there is a reason.
    pub open spec fn creation_refusal(
        self,
        proposer: Address,
        action: ActionModel,
        title: Seq<u8>,
        description: Seq<u8>,
        payload: Seq<u8>,
        title_clean: bool,
        description_clean: bool,
    ) -> Option<GovernanceError> {
        let early = self.early_creation_refusal(
            proposer,
            title,
            description,
            title_clean,
            description_clean,
        );
        if early is Some {
            early
        } else if self.action_refusal(action) is Some {
            self.action_refusal(action)
        } else if !payload_fits(action, payload) {
            Some(GovernanceError::InvalidProposal)
        } else {
            None
        }
    }

    /// The proposal that is created next.
    pub open spec fn new_proposal(
        self,
        now: u64,
        proposer: Address,
        action: ActionModel,
        title: Seq<u8>,
        description: Seq<u8>,
        payload: Seq<u8>,
        category: ProposalCategory,
        quadratic: bool,
    ) -> ProposalModel {
        let rules = self.rules();
        ProposalModel {
            id: self.next_proposal_id,
            proposer,
            action,
            title,
            description,
            execution_payload: payload,
            voting_starts: later(now, rules.voting_delay),
            voting_ends: later(later(now, rules.voting_delay), rules.voting_period),
            votes_for: 0,
            votes_against: 0,
            votes_abstain: 0,
            status: ProposalStatus::Pending,
            voters: Map::empty(),
            voter_list: Seq::empty(),
            executed_at: None,
            discussion_ends_at: if rules.discussion_duration > 0 {
                later(now, rules.discussion_duration)
            } else {
                0
            },
            category,
            use_quadratic_voting: quadratic,
            quadratic_total_supply: if quadratic {
                self.quadratic_supply() as i128
            } else {
                0
            },
        }
    }

    /// The state once `p` was created: it is stored and listed under the next number, the voting
    /// power of every holder is put on record for it, and its creation is announced.
    pub open spec fn created(self, p: ProposalModel) -> GovernanceModel {
        let id = self.next_proposal_id;
        GovernanceModel {
            proposals: self.proposals.insert(id, p),
            proposal_ids: self.proposal_ids.push(id),
            next_proposal_id: later(id, 1),
            snapshots: self.snapshots.insert(id, self.power_snapshot()),
            ..self
        }.announcing(
            EventModel::ProposalCreated {
                id,
                proposer: p.proposer,
                discussion_ends_at: p.discussion_ends_at,
                voting_starts: p.voting_starts,
                voting_ends: p.voting_ends,
            },
        )
    }

    /// The state after a proposal was to be created.
    pub open spec fn after_creation(
        self,
        now: u64,
        proposer: Address,
        action: ActionModel,
        title: Seq<u8>,
        description: Seq<u8>,
        payload: Seq<u8>,
        category: ProposalCategory,
        quadratic: bool,
        title_clean: bool,
        description_clean: bool,
    ) -> GovernanceModel {
        if self.creation_refusal(
            proposer,
            action,
            title,
            description,
            payload,
            title_clean,
            description_clean,
        ) is Some {
            self.demanding(proposer)
        } else {
            self.demanding(proposer).created(
                self.new_proposal(
                    now,
                    proposer,
                    action,
                    title,
                    description,
                    payload,
                    category,
                    quadratic,
                ),
            )
        }
    }

    /// The proposals in the order of creation, without those whose number stands for nothing.
    pub open spec fn listed_proposals(self) -> Seq<ProposalModel> {
        proposals_at(self.proposals, self.proposal_ids)
    }

    /// Why a stored proposal cannot be replaced, if there is a reason: there is none under the
    /// number, or it was withdrawn.
    pub open spec fn replacement_refusal(self, id: u64) -> Option<GovernanceError> {
        if !self.proposals.contains_key(id) {
            Some(GovernanceError::ProposalNotFound)
        } else if self.proposals[id].status == ProposalStatus::Withdrawn {
            Some(GovernanceError::ProposalAlreadyWithdrawn)
        } else {
            None
        }
    }

    /// The state after a stored proposal was to be replaced by `p`.
    pub open spec fn after_replacement(self, p: ProposalModel) -> GovernanceModel {
        if self.replacement_refusal(p.id) is Some {
            self
        } else {
            self.storing(p)
        }
    }

    /// The state with `p` stored under its number.
    pub open spec fn storing(self, p: ProposalModel) -> GovernanceModel {
        GovernanceModel { proposals: self.proposals.insert(p.id, p), ..self }
    }
}

/// The proposals that the numbers stand for, in the order of the numbers.
pub open spec fn proposals_at(proposals: Map<u64, ProposalModel>, ids: Seq<u64>) -> Seq<
    ProposalModel,
>
    decreases ids.len(),
{
    if ids.len() == 0 {
        Seq::empty()
    } else {
        let rest = proposals_at(proposals, ids.drop_last());
        if proposals.contains_key(ids.last()) {
            rest.push(proposals[ids.last()])
        } else {
            rest
        }
    }
}

/// What is put on record for a proposal is a matter of holders, stakes and delegations alone.
pub(crate) proof fn lemma_snapshot_frame(a: GovernanceModel, b: GovernanceModel)
    requires
        a.holders == b.holders,
        a.staked == b.staked,
        a.delegations == b.delegations,
        a.delegators == b.delegators,
    ensures
        a.power_snapshot() == b.power_snapshot(),
        a.quadratic_supply() == b.quadratic_supply(),
        forall|account: Address|
            #![trigger a.effective_power(account)]
            #![trigger b.effective_power(account)]
            a.effective_power(account) == b.effective_power(account),
{
    power_depends_on_stakes_and_delegations(a, b);
    assert(a.power_snapshot() =~= b.power_snapshot());
    assert(a.quadratic_weights() =~= b.quadratic_weights());
}

/// Records the voting power of every holder that has any, and adds up their quadratic weights where
/// that is asked for.
fn take_snapshot(env: &Env, gov: &Governance, quadratic: bool) -> (snapshot: (Amounts, i128))
    ensures
        snapshot.0@ == gov@.power_snapshot(),
        snapshot.1 == if quadratic {
            gov@.quadratic_supply()
        } else {
            0
        },
{
    let ghost m = gov@;
    let ghost weights = m.quadratic_weights();
    let mut powers: Amounts = Amounts::new(env);
    let mut supply: i128 = 0;
    let n: u32 = gov.holders.len();
    let mut i: u32 = 0;
    while i < n
        invariant
            i <= n,
            m == gov@,
            weights == m.quadratic_weights(),
            n == m.holders.len(),
            forall|a: Address| #[trigger]
                powers@.contains_key(a) <==> m.holders.take(i as int).contains(a)
                    && m.effective_power(a) > 0,
            forall|a: Address| #[trigger]
                powers@.contains_key(a) ==> powers@[a] == m.effective_power(a),
            total(weights.take(i as int)) >= 0,
            supply == if quadratic {
                clamp_i128(total(weights.take(i as int)))
            } else {
                0
            },
        decreases n - i,
    {
        let ghost seen = m.holders.take(i as int);
        if let Some(holder) = gov.holders.get(i) {
            let power: i128 = get_effective_voting_power(gov, holder);
            proof {
                assert(weights.take(i + 1).drop_last() =~= weights.take(i as int));
                assert(weights.take(i + 1).last() == floor_sqrt(power as int));
                if power > 0 {
                    floor_sqrt_exists(power as int);
                }
                assert(m.holders.take(i + 1) =~= seen.push(holder));
                assert(seen.push(holder).last() == holder);
                assert forall|a: Address|
                    m.holders.take(i + 1).contains(a) <==> seen.contains(a) || a == holder by {
                    if seen.contains(a) {
                        let k = choose|k: int| 0 <= k < seen.len() && seen[k] == a;
                        assert(seen.push(holder)[k] == a);
                    }
                }
            }
            if power > 0 {
                powers.set(holder, power);
                if quadratic {
                    supply = saturating_add(supply, isqrt(power));
                }
            }
        }
        i += 1;
    }
    proof {
        assert(m.holders.take(n as int) =~= m.holders);
        assert(weights.take(n as int) =~= weights);
        assert(powers@ =~= m.power_snapshot());
    }
    (powers, supply)
}

/// Whether a proposal can be created, before its action is looked at.
pub fn check_proposer(
    gov: &Governance,
    proposer: Address,
    title: &ByteString,
    description: &ByteString,
    title_clean: bool,
    description_clean: bool,
) -> (result: Result<(), GovernanceError>)
    ensures
        result == match gov@.early_creation_refusal(
            proposer,
            title@,
            description@,
            title_clean,
            description_clean,
        ) {
            Some(e) => Err(e),
            None => Ok(()),
        },
{
    if title.is_empty() || description.is_empty() {
        return Err(GovernanceError::InvalidProposal);
    }
    if !title_clean {
        return Err(GovernanceError::InvalidProposal);
    }
    if !description_clean {
        return Err(GovernanceError::InvalidProposal);
    }
    let config: GovernanceConfig = get_governance_config(gov);
    if get_effective_voting_power(gov, proposer) < config.min_proposal_threshold {
        return Err(GovernanceError::NoVotingPower);
    }
    Ok(())
}

/// Puts an action to the vote, and returns the number of the new proposal.
///
/// `title_clean` and `description_clean` say whether the sanitizer lets the texts through, asked
/// with `TITLE_LIMIT` and `DESCRIPTION_LIMIT`. The voting power of every holder is put on record, so
/// that stakes and delegations that change later do not count for this proposal.
pub fn create_proposal(
    env: &Env,
    gov: &mut Governance,
    now: u64,
    proposer: Address,
    proposal_type: ProposalType,
    title: ByteString,
    description: ByteString,
    execution_payload: ByteString,
    category: ProposalCategory,
    use_quadratic_voting: bool,
    title_clean: bool,
    description_clean: bool,
) -> (result: Result<u64, GovernanceError>)
    requires
        old(gov)@.early_creation_refusal(
            proposer,
            title@,
            description@,
            title_clean,
            description_clean,
        ) is None ==> change_is_measurable(proposal_type@),
        old(gov)@.creation_refusal(
            proposer,
            proposal_type@,
            title@,
            description@,
            execution_payload@,
            title_clean,
            description_clean,
        ) is None ==> old(gov)@.proposal_ids.len() < u32::MAX,
    ensures
        final(gov)@ == old(gov)@.after_creation(
            now,
            proposer,
            proposal_type@,
            title@,
            description@,
            execution_payload@,
            category,
            use_quadratic_voting,
            title_clean,
            description_clean,
        ),
        result == match old(gov)@.creation_refusal(
            proposer,
            proposal_type@,
            title@,
            description@,
            execution_payload@,
            title_clean,
            description_clean,
        ) {
            Some(e) => Err(e),
            None => Ok(old(gov)@.next_proposal_id),
        },
        result matches Ok(id) ==> {
            let p = final(gov)@.proposals[id];
            let c = in_force(old(gov)@);
            &&& is_after(p.voting_starts, now as int, c.voting_delay)
            &&& is_after(p.voting_ends, p.voting_starts as int, c.voting_period)
        },
{
    gov.demand_auth(proposer);
    proof {
        lemma_snapshot_frame(old(gov)@, gov@);
    }
    if let Err(e) = check_proposer(
        gov,
        proposer,
        &title,
        &description,
        title_clean,
        description_clean,
    ) {
        return Err(e);
    }
    let config: GovernanceConfig = get_governance_config(gov);
    if let Err(e) = validate_proposal(gov, &proposal_type) {
        return Err(e);
    }
    if let Err(e) = validate_execution_payload(&proposal_type, &execution_payload) {
        return Err(e);
    }
    let id: u64 = gov.proposals.next_proposal_id;
    let (powers, quadratic_total_supply) = take_snapshot(env, gov, use_quadratic_voting);
    gov.snapshots.insert(id, powers);
    let discussion_ends_at: u64 = if config.discussion_duration > 0 {
        now.saturating_add(config.discussion_duration)
    } else {
        0
    };
    let voting_starts: u64 = now.saturating_add(config.voting_delay);
    let voting_ends: u64 = voting_starts.saturating_add(config.voting_period);
    let proposal = Proposal {
        id,
        proposer,
        proposal_type,
        title,
        description,
        execution_payload,
        voting_starts,
        voting_ends,
        votes_for: 0,
        votes_against: 0,
        votes_abstain: 0,
        status: ProposalStatus::Pending,
        voters: Ballots::new(env),
        voter_list: IdList::new(env),
        executed_at: None,
        discussion_ends_at,
        category,
        use_quadratic_voting,
        quadratic_total_supply,
    };
    gov.proposals.proposals.insert(id, proposal);
    gov.proposals.proposal_ids.push_back(id);
    gov.proposals.next_proposal_id = id.saturating_add(1);
    gov.announce(
        Event::ProposalCreated { id, proposer, discussion_ends_at, voting_starts, voting_ends },
    );
    Ok(id)
}

/// A copy of the proposal with the given number.
pub fn get_proposal(gov: &Governance, proposal_id: u64) -> (result: Result<Proposal, GovernanceError>)
    ensures
        match result {
            Ok(p) => gov@.proposals.contains_key(proposal_id) && p@ == gov@.proposals[proposal_id],
            Err(e) => !gov@.proposals.contains_key(proposal_id) && e
                == GovernanceError::ProposalNotFound,
        },
{
    match gov.proposals.proposals.get(&proposal_id) {
        Some(proposal) => Ok(proposal.clone()),
        None => Err(GovernanceError::ProposalNotFound),
    }
}

/// Whether the stored proposal with the given number can be replaced.
pub(crate) fn check_replacement(gov: &Governance, id: u64) -> (result: Result<(), GovernanceError>)
    ensures
        result == match gov@.replacement_refusal(id) {
            Some(e) => Err(e),
            None => Ok(()),
        },
{
    match gov.proposals.proposals.get(&id) {
        Some(stored) => {
            if stored.status == ProposalStatus::Withdrawn {
                Err(GovernanceError::ProposalAlreadyWithdrawn)
            } else {
                Ok(())
            }
        },
        None => Err(GovernanceError::ProposalNotFound),
    }
}

/// Replaces the stored proposal with the same number. A proposal that was withdrawn stays as it is.
pub fn put_proposal(gov: &mut Governance, proposal: &Proposal) -> (result: Result<
    (),
    GovernanceError,
>)
    ensures
        final(gov)@ == old(gov)@.after_replacement(proposal@),
        result == match old(gov)@.replacement_refusal(proposal.id) {
            Some(e) => Err(e),
            None => Ok(()),
        },
{
    if let Err(e) = check_replacement(gov, proposal.id) {
        return Err(e);
    }
    gov.proposals.proposals.insert(proposal.id, proposal.clone());
    Ok(())
}

/// Copies of all proposals, in the order of creation.
pub fn get_all_proposals(gov: &Governance) -> (all: Vec<Proposal>)
    ensures
        all@.map_values(|p: Proposal| p@) == gov@.listed_proposals(),
{
    let mut all: Vec<Proposal> = Vec::new();
    let n: u32 = gov.proposals.proposal_ids.len();
    let mut i: u32 = 0;
    let ghost m = gov@;
    while i < n
        invariant
            i <= n,
            m == gov@,
            n == m.proposal_ids.len(),
            all@.map_values(|p: Proposal| p@) == proposals_at(
                m.proposals,
                m.proposal_ids.take(i as int),
            ),
        decreases n - i,
    {
        assert(m.proposal_ids.take(i + 1).drop_last() =~= m.proposal_ids.take(i as int));
        if let Some(id) = gov.proposals.proposal_ids.get(i) {
            if let Some(proposal) = gov.proposals.proposals.get(&id) {
                let ghost before = all@.map_values(|p: Proposal| p@);
                let copy: Proposal = proposal.clone();
                let ghost p = copy@;
                all.push(copy);
                assert(all@.map_values(|p: Proposal| p@) =~= before.push(p));
            }
        }
        i += 1;
    }
    assert(m.proposal_ids.take(n as int) =~= m.proposal_ids);
    all
}

} // verus!
