use std::collections::BTreeMap;

use soroban_sdk::Env;
use swipe_governance::bytes::ByteString;
use swipe_governance::collections::{Amounts, IdList};
use swipe_governance::delegation::{
    check_delegation, contains_address, delegate_voting_power, get_effective_voting_power, undelegate_voting_power,
};
use swipe_governance::execution::{
    execute_proposal, execute_proposal_action, execute_proposal_action_by_id,
    mark_proposal_executed,
};
use swipe_governance::finalization::finalize_proposal;
use swipe_governance::lifecycle::{cancel_proposal, withdraw_proposal};
use swipe_governance::proposals::{
    check_proposer, create_proposal, get_all_proposals, get_proposal, put_proposal, DESCRIPTION_LIMIT, TITLE_LIMIT,
};
use swipe_governance::state::{
    add_balance, configure_governance, default_governance_config, empty_delegation_state,
    empty_proposals_state, get_delegation_state, get_governance_config, get_proposals_state,
    Governance, Outbox,
};
use swipe_governance::statistics::calculate_proposal_statistics;
use swipe_governance::tables::Thresholds;
use swipe_governance::thresholds::{
    category_to_key, get_category_threshold, resolve_category_thresholds, set_category_thresholds,
};
use swipe_governance::types::{
    CategoryThreshold, Event, GovernanceConfig, GovernanceError, Proposal, ProposalCategory,
    ProposalStatus, ProposalType, Vote, VoteDelegation, VoteType,
};
use swipe_governance::validation::{validate_execution_payload, validate_proposal};
use swipe_governance::voting::{cast_vote, check_vote, get_vote_snapshot};

const ADMIN: u64 = 1;
const GUARDIAN: u64 = 2;
const ALICE: u64 = 10;
const BOB: u64 = 11;
const CAROL: u64 = 12;
const STRANGER: u64 = 99;
const GOLD: u64 = 500;
const DEPOSITS: u64 = 501;

const DAY: u64 = 24 * 60 * 60;
const NOW: u64 = 1_000_000;
const STARTS: u64 = NOW + 60;
const ENDS: u64 = NOW + 60 + 7 * DAY;

fn text(s: &str) -> ByteString {
    ByteString::new(s.as_bytes().to_vec())
}

fn bytes(b: &[u8]) -> ByteString {
    ByteString::new(b.to_vec())
}

/// Alice, Bob and Carol hold and have staked 10 000, 3 600 and 400 of 14 000 tokens.
fn governance(env: &Env) -> Governance {
    let mut staked = Amounts::new(env);
    staked.set(ALICE, 10_000);
    staked.set(BOB, 3_600);
    staked.set(CAROL, 400);
    let mut holders = IdList::new(env);
    holders.push_back(ALICE);
    holders.push_back(BOB);
    holders.push_back(CAROL);
    let mut treasury = Amounts::new(env);
    treasury.set(GOLD, 5_000);
    Governance {
        admin: Some(ADMIN),
        guardian: Some(GUARDIAN),
        config: None,
        proposals: get_proposals_state(env, None),
        delegations: get_delegation_state(env, None),
        thresholds: Thresholds::new(env),
        parameters: soroban_sdk::Map::new(env),
        features: soroban_sdk::Map::new(env),
        upgrades: soroban_sdk::Map::new(env),
        snapshots: BTreeMap::new(),
        treasury,
        balances: Amounts::new(env),
        staked,
        holders,
        total_supply: Ok(14_000),
        deposit_asset: DEPOSITS,
        locked_deposits: BTreeMap::new(),
        outbox: Outbox { auths: Vec::new(), events: Vec::new() },
    }
}

fn propose_as(
    env: &Env,
    gov: &mut Governance,
    proposer: u64,
    action: ProposalType,
    payload: &[u8],
    quadratic: bool,
) -> Result<u64, GovernanceError> {
    create_proposal(
        env,
        gov,
        NOW,
        proposer,
        action,
        text("title"),
        text("description"),
        bytes(payload),
        ProposalCategory::General,
        quadratic,
        true,
        true,
    )
}

fn propose(env: &Env, gov: &mut Governance, action: ProposalType, payload: &[u8]) -> u64 {
    propose_as(env, gov, ALICE, action, payload, false).unwrap()
}

fn signal() -> ProposalType {
    ProposalType::SignalProposal(text("hello"))
}

fn status(gov: &Governance, id: u64) -> ProposalStatus {
    get_proposal(gov, id).unwrap().status
}

// Configuration and thresholds

#[test]
fn default_configuration_values() {
    let config = default_governance_config();
    assert_eq!(config.min_proposal_threshold, 1_000);
    assert_eq!(config.voting_period, 604_800);
    assert_eq!(config.voting_delay, 60);
    assert_eq!(config.quorum_threshold, 1_000);
    assert_eq!(config.approval_threshold, 5_000);
    assert_eq!(config.execution_delay, 0);
    assert_eq!(config.discussion_duration, 0);
}

#[test]
fn configuration_is_checked_and_put_in_force() {
    let env = Env::default();
    let mut gov = governance(&env);
    let good = GovernanceConfig { voting_delay: 5, ..default_governance_config() };
    assert_eq!(
        configure_governance(&mut gov, Err(GovernanceError::Unauthorized), good),
        Err(GovernanceError::Unauthorized)
    );
    for bad in [
        GovernanceConfig { min_proposal_threshold: 0, ..good },
        GovernanceConfig { voting_period: 0, ..good },
        GovernanceConfig { quorum_threshold: 10_001, ..good },
        GovernanceConfig { approval_threshold: 10_001, ..good },
    ] {
        assert_eq!(
            configure_governance(&mut gov, Ok(()), bad),
            Err(GovernanceError::InvalidGovernanceConfig)
        );
    }
    assert_eq!(get_governance_config(&gov), default_governance_config());
    assert_eq!(configure_governance(&mut gov, Ok(()), good), Ok(good));
    assert_eq!(get_governance_config(&gov), good);
}

#[test]
fn category_keys_are_distinct() {
    assert_eq!(category_to_key(&ProposalCategory::ParameterChange), 0);
    assert_eq!(category_to_key(&ProposalCategory::ContractUpgrade), 1);
    assert_eq!(category_to_key(&ProposalCategory::TreasuryTransfer), 2);
    assert_eq!(category_to_key(&ProposalCategory::General), 3);
}

#[test]
fn category_thresholds_override_the_global_ones_unless_zero() {
    let env = Env::default();
    let mut gov = governance(&env);
    let global = default_governance_config();
    let upgrade = ProposalCategory::ContractUpgrade;
    assert_eq!(get_category_threshold(&gov, &upgrade), None);
    assert_eq!(resolve_category_thresholds(&gov, &upgrade, &global), (1_000, 5_000));
    let threshold = CategoryThreshold { quorum_bps: 3_000, supermajority_bps: 0 };
    assert_eq!(
        set_category_thresholds(&mut gov, Err(GovernanceError::NotInitialized), upgrade, threshold),
        Err(GovernanceError::NotInitialized)
    );
    for bad in [
        CategoryThreshold { quorum_bps: 10_001, supermajority_bps: 0 },
        CategoryThreshold { quorum_bps: 0, supermajority_bps: 10_001 },
    ] {
        assert_eq!(
            set_category_thresholds(&mut gov, Ok(()), upgrade, bad),
            Err(GovernanceError::InvalidGovernanceConfig)
        );
    }
    assert_eq!(set_category_thresholds(&mut gov, Ok(()), upgrade, threshold), Ok(()));
    assert_eq!(get_category_threshold(&gov, &upgrade), Some(threshold));
    assert_eq!(get_category_threshold(&gov, &ProposalCategory::General), None);
    assert_eq!(resolve_category_thresholds(&gov, &upgrade, &global), (3_000, 5_000));
    let threshold = CategoryThreshold { quorum_bps: 0, supermajority_bps: 6_700 };
    assert_eq!(set_category_thresholds(&mut gov, Ok(()), upgrade, threshold), Ok(()));
    assert_eq!(resolve_category_thresholds(&gov, &upgrade, &global), (1_000, 6_700));
}

#[test]
fn stored_states_are_taken_as_they_are() {
    let env = Env::default();
    let mut stored = empty_proposals_state(&env);
    assert_eq!(stored.next_proposal_id, 1);
    assert!(stored.proposals.is_empty() && stored.proposal_ids.is_empty());
    stored.next_proposal_id = 9;
    assert_eq!(get_proposals_state(&env, Some(stored)).next_proposal_id, 9);
    let mut stored = empty_delegation_state(&env);
    assert!(stored.delegations.get(ALICE).is_none() && stored.delegators.is_empty());
    stored.delegators.push_back(ALICE);
    assert_eq!(get_delegation_state(&env, Some(stored)).delegators.len(), 1);
}

// Delegation

#[test]
fn delegation_moves_power_and_can_be_undone() {
    let env = Env::default();
    let mut gov = governance(&env);
    assert_eq!(delegate_voting_power(&mut gov, BOB, ALICE), Ok(()));
    assert_eq!(get_effective_voting_power(&gov, ALICE), 13_600);
    assert_eq!(get_effective_voting_power(&gov, BOB), 0);
    assert_eq!(get_effective_voting_power(&gov, CAROL), 400);
    gov.staked.set(BOB, 9_999);
    assert_eq!(get_effective_voting_power(&gov, ALICE), 13_600);
    gov.staked.set(BOB, 3_600);
    assert_eq!(undelegate_voting_power(&mut gov, BOB), Ok(()));
    assert_eq!(get_effective_voting_power(&gov, ALICE), 10_000);
    assert_eq!(get_effective_voting_power(&gov, BOB), 3_600);
    assert_eq!(delegate_voting_power(&mut gov, BOB, CAROL), Ok(()));
    assert_eq!(gov.delegations.delegators.len(), 1);
    assert_eq!(
        gov.delegations.delegations.get(BOB),
        Some(VoteDelegation {
            delegator: BOB,
            delegate: CAROL,
            delegated_power: 3_600,
            active: true,
        })
    );
    assert_eq!(get_effective_voting_power(&gov, CAROL), 4_000);
    assert_eq!(gov.outbox.auths, vec![BOB, BOB, BOB]);
}

#[test]
fn delegation_refusals() {
    let env = Env::default();
    let mut gov = governance(&env);
    assert_eq!(
        delegate_voting_power(&mut gov, ALICE, ALICE),
        Err(GovernanceError::InvalidProposal)
    );
    assert_eq!(
        delegate_voting_power(&mut gov, STRANGER, ALICE),
        Err(GovernanceError::NoVotingPower)
    );
    assert_eq!(
        undelegate_voting_power(&mut gov, ALICE),
        Err(GovernanceError::CrossCommitteeRequestNotFound)
    );
    assert_eq!(delegate_voting_power(&mut gov, ALICE, BOB), Ok(()));
    assert_eq!(
        delegate_voting_power(&mut gov, ALICE, CAROL),
        Err(GovernanceError::InvalidCommitteeAction)
    );
    assert_eq!(undelegate_voting_power(&mut gov, ALICE), Ok(()));
    assert_eq!(undelegate_voting_power(&mut gov, ALICE), Ok(()));
}

#[test]
fn power_saturates() {
    let env = Env::default();
    let mut gov = governance(&env);
    gov.staked.set(ALICE, i128::MAX);
    assert_eq!(delegate_voting_power(&mut gov, ALICE, BOB), Ok(()));
    assert_eq!(get_effective_voting_power(&gov, BOB), i128::MAX);
}

#[test]
fn addresses_are_found_in_lists() {
    let env = Env::default();
    let mut list = IdList::new(&env);
    assert!(!contains_address(&list, ALICE));
    list.push_back(BOB);
    list.push_back(ALICE);
    assert!(contains_address(&list, ALICE));
    assert!(!contains_address(&list, CAROL));
}

// Validation

#[test]
fn parameter_changes_stay_below_half() {
    let env = Env::default();
    let gov = governance(&env);
    let change = |current: i128, proposed: i128| {
        validate_proposal(&gov, &ProposalType::ParameterChange(text("fee"), current, proposed))
    };
    assert_eq!(change(100, 149), Ok(()));
    assert_eq!(change(100, 51), Ok(()));
    assert_eq!(change(100, 150), Err(GovernanceError::InvalidProposal));
    assert_eq!(change(100, 50), Err(GovernanceError::InvalidProposal));
    assert_eq!(change(0, i128::MAX), Ok(()));
    assert_eq!(change(-5, i128::MIN), Ok(()));
    assert_eq!(change(1, i128::MAX), Err(GovernanceError::ArithmeticOverflow));
    assert_eq!(
        validate_proposal(&gov, &ProposalType::ParameterChange(text(""), 0, 0)),
        Err(GovernanceError::InvalidProposal)
    );
}

#[test]
fn payments_stay_within_a_tenth() {
    let env = Env::default();
    let gov = governance(&env);
    let spend = |amount: i128, asset: u64| {
        validate_proposal(&gov, &ProposalType::TreasurySpend(BOB, amount, asset, text("grant")))
    };
    assert_eq!(spend(500, GOLD), Ok(()));
    assert_eq!(spend(501, GOLD), Err(GovernanceError::BudgetExceeded));
    assert_eq!(spend(0, GOLD), Err(GovernanceError::BudgetExceeded));
    assert_eq!(spend(-1, GOLD), Err(GovernanceError::BudgetExceeded));
    assert_eq!(spend(i128::MAX, GOLD), Err(GovernanceError::BudgetExceeded));
    assert_eq!(spend(1, GOLD + 1), Err(GovernanceError::BudgetExceeded));
}

#[test]
fn a_full_treasury_lets_large_payments_through() {
    let env = Env::default();
    let mut gov = governance(&env);
    gov.treasury.set(GOLD, i128::MAX);
    assert_eq!(
        validate_proposal(
            &gov,
            &ProposalType::TreasurySpend(BOB, i128::MAX / 2, GOLD, text("grant"))
        ),
        Ok(())
    );
}

#[test]
fn hashes_have_their_length() {
    let env = Env::default();
    let gov = governance(&env);
    let upgrade = |n: usize| {
        validate_proposal(&gov, &ProposalType::ContractUpgrade(text("c"), bytes(&vec![7; n])))
    };
    assert_eq!(upgrade(32), Ok(()));
    assert_eq!(upgrade(31), Err(GovernanceError::InvalidProposal));
    assert_eq!(upgrade(33), Err(GovernanceError::InvalidProposal));
}

#[test]
fn payloads_fit_their_actions() {
    let bad = Err(GovernanceError::InvalidProposal);
    let upgrade = ProposalType::ContractUpgrade(text("c"), bytes(&[7; 32]));
    assert_eq!(validate_execution_payload(&upgrade, &bytes(&[0; 32])), Ok(()));
    assert_eq!(validate_execution_payload(&upgrade, &bytes(&[0; 31])), bad);
    for action in [
        ProposalType::TreasurySpend(BOB, 1, GOLD, text("grant")),
        ProposalType::ParameterChange(text("fee"), 1, 1),
    ] {
        assert_eq!(validate_execution_payload(&action, &bytes(&[])), Ok(()));
        assert_eq!(validate_execution_payload(&action, &bytes(&[1, 9])), Ok(()));
        assert_eq!(validate_execution_payload(&action, &bytes(&[2])), bad);
    }
    let custom = ProposalType::Custom(BOB);
    assert_eq!(validate_execution_payload(&custom, &bytes(&[0])), Ok(()));
    assert_eq!(validate_execution_payload(&custom, &bytes(&[])), bad);
    assert_eq!(validate_execution_payload(&signal(), &bytes(&[9])), Ok(()));
    let toggle = ProposalType::FeatureToggle(text("swipe"), true);
    assert_eq!(validate_execution_payload(&toggle, &bytes(&[])), Ok(()));
}

// Creation

#[test]
fn creation_fills_in_the_proposal() {
    let env = Env::default();
    let mut gov = governance(&env);
    let id = propose_as(&env, &mut gov, BOB, signal(), &[3, 4], true).unwrap();
    assert_eq!(id, 1);
    assert_eq!(gov.proposals.next_proposal_id, 2);
    assert_eq!(gov.proposals.proposal_ids.get(0), Some(1));
    let p = get_proposal(&gov, id).unwrap();
    assert_eq!(p.id, 1);
    assert_eq!(p.proposer, BOB);
    assert_eq!(p.proposal_type, signal());
    assert_eq!(p.title, text("title"));
    assert_eq!(p.description, text("description"));
    assert_eq!(p.execution_payload, bytes(&[3, 4]));
    assert_eq!((p.voting_starts, p.voting_ends), (STARTS, ENDS));
    assert_eq!((p.votes_for, p.votes_against, p.votes_abstain), (0, 0, 0));
    assert_eq!(p.status, ProposalStatus::Pending);
    assert!(!p.voters.contains_key(BOB) && p.voter_list.is_empty());
    assert_eq!(p.executed_at, None);
    assert_eq!(p.discussion_ends_at, 0);
    assert_eq!(p.category, ProposalCategory::General);
    assert!(p.use_quadratic_voting);
    assert_eq!(p.quadratic_total_supply, 100 + 60 + 20);
    assert_eq!(gov.outbox.auths, vec![BOB]);
    assert_eq!(
        gov.outbox.events,
        vec![Event::ProposalCreated {
            id: 1,
            proposer: BOB,
            discussion_ends_at: 0,
            voting_starts: STARTS,
            voting_ends: ENDS,
        }]
    );
}

#[test]
fn creation_records_the_power_of_holders() {
    let env = Env::default();
    let mut gov = governance(&env);
    gov.staked.set(STRANGER, 77);
    gov.holders.push_back(13);
    delegate_voting_power(&mut gov, CAROL, BOB).unwrap();
    let id = propose(&env, &mut gov, signal(), &[]);
    assert_eq!(get_vote_snapshot(&gov, id, ALICE), Some(10_000));
    assert_eq!(get_vote_snapshot(&gov, id, BOB), Some(4_000));
    assert_eq!(get_vote_snapshot(&gov, id, CAROL), None);
    assert_eq!(get_vote_snapshot(&gov, id, 13), None);
    assert_eq!(get_vote_snapshot(&gov, id, STRANGER), None);
    assert_eq!(get_vote_snapshot(&gov, id + 1, ALICE), None);
    assert_eq!(get_proposal(&gov, id).unwrap().quadratic_total_supply, 0);
}

#[test]
fn creation_refusals() {
    let env = Env::default();
    let mut gov = governance(&env);
    let mut create = |who: u64, title: &str, description: &str, clean: (bool, bool)| {
        create_proposal(
            &env,
            &mut gov,
            NOW,
            who,
            signal(),
            text(title),
            text(description),
            bytes(&[]),
            ProposalCategory::General,
            false,
            clean.0,
            clean.1,
        )
    };
    let invalid = Err(GovernanceError::InvalidProposal);
    assert_eq!(create(ALICE, "", "d", (true, true)), invalid);
    assert_eq!(create(ALICE, "t", "", (true, true)), invalid);
    assert_eq!(create(ALICE, "t", "d", (false, true)), invalid);
    assert_eq!(create(ALICE, "t", "d", (true, false)), invalid);
    assert_eq!(create(CAROL, "t", "d", (true, true)), Err(GovernanceError::NoVotingPower));
    assert_eq!(create(ALICE, "t", "d", (true, true)), Ok(1));
    assert_eq!(
        propose_as(&env, &mut gov, ALICE, ProposalType::Custom(BOB), &[], false),
        invalid
    );
    assert_eq!(
        propose_as(
            &env,
            &mut gov,
            ALICE,
            ProposalType::TreasurySpend(BOB, 501, GOLD, text("grant")),
            &[],
            false
        ),
        Err(GovernanceError::BudgetExceeded)
    );
    assert_eq!(gov.proposals.proposal_ids.len(), 1);
    assert_eq!((TITLE_LIMIT, DESCRIPTION_LIMIT), (256, 4_096));
}

#[test]
fn times_saturate() {
    let env = Env::default();
    let mut gov = governance(&env);
    gov.config = Some(GovernanceConfig {
        voting_delay: u64::MAX,
        discussion_duration: u64::MAX,
        ..default_governance_config()
    });
    let id = propose(&env, &mut gov, signal(), &[]);
    let p = get_proposal(&gov, id).unwrap();
    assert_eq!((p.voting_starts, p.voting_ends), (u64::MAX, u64::MAX));
    assert_eq!(p.discussion_ends_at, u64::MAX);
}

#[test]
fn proposals_are_read_and_replaced() {
    let env = Env::default();
    let mut gov = governance(&env);
    assert_eq!(get_proposal(&gov, 1), Err(GovernanceError::ProposalNotFound));
    let first = propose(&env, &mut gov, signal(), &[]);
    let second = propose(&env, &mut gov, ProposalType::Custom(BOB), &[1]);
    let mut p: Proposal = get_proposal(&gov, second).unwrap();
    p.votes_for = 5;
    assert_eq!(put_proposal(&mut gov, &p), Ok(()));
    assert_eq!(get_proposal(&gov, second), Ok(p.clone()));
    let all = get_all_proposals(&gov);
    assert_eq!(all.len(), 2);
    assert_eq!((all[0].id, all[1].id), (first, second));
    assert_eq!(all[1].votes_for, 5);
    p.id = 77;
    assert_eq!(put_proposal(&mut gov, &p), Err(GovernanceError::ProposalNotFound));
    gov.proposals.proposals.remove(&first);
    let all = get_all_proposals(&gov);
    assert_eq!(all.len(), 1);
    assert_eq!(all[0].id, second);
}

// Voting

#[test]
fn votes_are_counted_by_kind() {
    let env = Env::default();
    let mut gov = governance(&env);
    let id = propose(&env, &mut gov, signal(), &[]);
    assert_eq!(cast_vote(&mut gov, STARTS, id, ALICE, VoteType::For), Ok(()));
    assert_eq!(status(&gov, id), ProposalStatus::Active);
    assert_eq!(cast_vote(&mut gov, STARTS + 1, id, BOB, VoteType::Against), Ok(()));
    assert_eq!(cast_vote(&mut gov, ENDS - 1, id, CAROL, VoteType::Abstain), Ok(()));
    let p = get_proposal(&gov, id).unwrap();
    assert_eq!((p.votes_for, p.votes_against, p.votes_abstain), (10_000, 3_600, 400));
    assert_eq!(p.voter_list.len(), 3);
    assert_eq!(
        p.voters.get(BOB),
        Some(Vote {
            voter: BOB,
            vote_type: VoteType::Against,
            voting_power: 3_600,
            timestamp: STARTS + 1,
        })
    );
    assert_eq!(p.voters.get(ALICE).unwrap().vote_type, VoteType::For);
    assert_eq!(p.voters.get(CAROL).unwrap().vote_type, VoteType::Abstain);
    assert_eq!(p.voters.get(STRANGER), None);
    assert_eq!(gov.outbox.auths, vec![ALICE, ALICE, BOB, CAROL]);
    assert_eq!(gov.outbox.events.len(), 1);
}

#[test]
fn quadratic_votes_weigh_the_square_root() {
    let env = Env::default();
    let mut gov = governance(&env);
    gov.staked.set(CAROL, 399);
    let id = propose_as(&env, &mut gov, ALICE, signal(), &[], true).unwrap();
    for voter in [ALICE, BOB, CAROL] {
        assert_eq!(cast_vote(&mut gov, STARTS, id, voter, VoteType::For), Ok(()));
    }
    let p = get_proposal(&gov, id).unwrap();
    assert_eq!(p.votes_for, 100 + 60 + 19);
    assert_eq!(p.quadratic_total_supply, 179);
}

#[test]
fn vote_refusals() {
    let env = Env::default();
    let mut gov = governance(&env);
    let id = propose(&env, &mut gov, signal(), &[]);
    let mut vote = |now: u64, id: u64, voter: u64| cast_vote(&mut gov, now, id, voter, VoteType::For);
    assert_eq!(vote(STARTS, id + 1, ALICE), Err(GovernanceError::ProposalNotFound));
    assert_eq!(vote(STARTS - 1, id, ALICE), Err(GovernanceError::VotingNotStarted));
    assert_eq!(vote(ENDS, id, ALICE), Err(GovernanceError::VotingEnded));
    assert_eq!(vote(STARTS, id, STRANGER), Err(GovernanceError::NoVotingPower));
    assert_eq!(vote(STARTS, id, ALICE), Ok(()));
    assert_eq!(vote(STARTS, id, ALICE), Err(GovernanceError::AlreadyVoted));
    assert_eq!(cancel_proposal(&mut gov, id, ADMIN), Ok(ProposalStatus::Cancelled));
    assert_eq!(
        cast_vote(&mut gov, STARTS, id, BOB, VoteType::For),
        Err(GovernanceError::ProposalNotActive)
    );
}

#[test]
fn a_tally_that_overflows_refuses_the_vote() {
    let env = Env::default();
    let mut gov = governance(&env);
    gov.staked.set(ALICE, i128::MAX);
    let id = propose(&env, &mut gov, signal(), &[]);
    assert_eq!(cast_vote(&mut gov, STARTS, id, ALICE, VoteType::For), Ok(()));
    assert_eq!(
        cast_vote(&mut gov, STARTS, id, BOB, VoteType::For),
        Err(GovernanceError::ArithmeticOverflow)
    );
    assert_eq!(cast_vote(&mut gov, STARTS, id, BOB, VoteType::Against), Ok(()));
}

#[test]
fn stakes_after_creation_do_not_count() {
    let env = Env::default();
    let mut gov = governance(&env);
    let id = propose(&env, &mut gov, signal(), &[]);
    gov.staked.set(ALICE, 0);
    gov.staked.set(STRANGER, 1_000_000);
    gov.holders.push_back(STRANGER);
    delegate_voting_power(&mut gov, BOB, CAROL).unwrap();
    assert_eq!(cast_vote(&mut gov, STARTS, id, ALICE, VoteType::For), Ok(()));
    assert_eq!(cast_vote(&mut gov, STARTS, id, BOB, VoteType::For), Ok(()));
    assert_eq!(cast_vote(&mut gov, STARTS, id, CAROL, VoteType::For), Ok(()));
    assert_eq!(
        cast_vote(&mut gov, STARTS, id, STRANGER, VoteType::For),
        Err(GovernanceError::NoVotingPower)
    );
    assert_eq!(get_proposal(&gov, id).unwrap().votes_for, 14_000);
}

#[test]
fn discussion_comes_before_the_vote_and_its_end_is_announced_once() {
    let env = Env::default();
    let mut gov = governance(&env);
    gov.config =
        Some(GovernanceConfig { discussion_duration: DAY, ..default_governance_config() });
    let id = propose(&env, &mut gov, signal(), &[]);
    assert_eq!(
        cast_vote(&mut gov, NOW + DAY - 1, id, ALICE, VoteType::For),
        Err(GovernanceError::DiscussionPeriodActive)
    );
    assert_eq!(
        cast_vote(&mut gov, NOW + DAY, id, STRANGER, VoteType::For),
        Err(GovernanceError::NoVotingPower)
    );
    assert_eq!(gov.outbox.events.len(), 1);
    assert_eq!(cast_vote(&mut gov, NOW + DAY, id, ALICE, VoteType::For), Ok(()));
    assert_eq!(cast_vote(&mut gov, NOW + DAY + 1, id, BOB, VoteType::For), Ok(()));
    assert_eq!(gov.outbox.events.len(), 2);
    assert_eq!(
        gov.outbox.events[1],
        Event::DiscussionEnded { id, discussion_ends_at: NOW + DAY, now: NOW + DAY }
    );
}

// Finalization

#[test]
fn finalization_refusals() {
    let env = Env::default();
    let mut gov = governance(&env);
    let id = propose(&env, &mut gov, signal(), &[]);
    assert_eq!(
        finalize_proposal(&mut gov, ENDS, id + 1),
        Err(GovernanceError::ProposalNotFound)
    );
    assert_eq!(
        finalize_proposal(&mut gov, ENDS - 1, id),
        Err(GovernanceError::InvalidDuration)
    );
    gov.total_supply = Err(GovernanceError::NotInitialized);
    assert_eq!(finalize_proposal(&mut gov, ENDS, id), Err(GovernanceError::NotInitialized));
    gov.total_supply = Ok(0);
    assert_eq!(finalize_proposal(&mut gov, ENDS, id), Err(GovernanceError::InvalidSupply));
    gov.total_supply = Ok(14_000);
    assert_eq!(finalize_proposal(&mut gov, ENDS, id), Ok(ProposalStatus::Failed));
    assert_eq!(finalize_proposal(&mut gov, ENDS, id), Err(GovernanceError::ProposalNotActive));
}

#[test]
fn quorum_is_a_share_of_the_supply() {
    let env = Env::default();
    let mut gov = governance(&env);
    gov.total_supply = Ok(36_000);
    let id = propose(&env, &mut gov, signal(), &[]);
    cast_vote(&mut gov, STARTS, id, BOB, VoteType::For).unwrap();
    assert_eq!(finalize_proposal(&mut gov, ENDS, id), Ok(ProposalStatus::Succeeded));
    gov.total_supply = Ok(36_001);
    let id = propose(&env, &mut gov, signal(), &[]);
    cast_vote(&mut gov, STARTS, id, BOB, VoteType::For).unwrap();
    assert_eq!(finalize_proposal(&mut gov, ENDS, id), Ok(ProposalStatus::Failed));
}

#[test]
fn abstentions_count_for_the_quorum_only() {
    let env = Env::default();
    let mut gov = governance(&env);
    let id = propose(&env, &mut gov, signal(), &[]);
    cast_vote(&mut gov, STARTS, id, ALICE, VoteType::Abstain).unwrap();
    assert_eq!(finalize_proposal(&mut gov, ENDS, id), Ok(ProposalStatus::Failed));
    let id = propose(&env, &mut gov, signal(), &[]);
    cast_vote(&mut gov, STARTS, id, ALICE, VoteType::Abstain).unwrap();
    cast_vote(&mut gov, STARTS, id, CAROL, VoteType::For).unwrap();
    assert_eq!(finalize_proposal(&mut gov, ENDS, id), Ok(ProposalStatus::Succeeded));
}

#[test]
fn approval_needs_the_threshold_of_the_category() {
    let env = Env::default();
    let mut gov = governance(&env);
    gov.staked.set(BOB, 5_000);
    gov.staked.set(CAROL, 5_000);
    let id = propose(&env, &mut gov, signal(), &[]);
    cast_vote(&mut gov, STARTS, id, BOB, VoteType::For).unwrap();
    cast_vote(&mut gov, STARTS, id, CAROL, VoteType::Against).unwrap();
    assert_eq!(finalize_proposal(&mut gov, ENDS, id), Ok(ProposalStatus::Succeeded));
    set_category_thresholds(
        &mut gov,
        Ok(()),
        ProposalCategory::General,
        CategoryThreshold { quorum_bps: 0, supermajority_bps: 5_001 },
    )
    .unwrap();
    let id = propose(&env, &mut gov, signal(), &[]);
    cast_vote(&mut gov, STARTS, id, BOB, VoteType::For).unwrap();
    cast_vote(&mut gov, STARTS, id, CAROL, VoteType::Against).unwrap();
    assert_eq!(finalize_proposal(&mut gov, ENDS, id), Ok(ProposalStatus::Failed));
    assert_eq!(status(&gov, id), ProposalStatus::Failed);
}

#[test]
fn quadratic_votes_are_held_against_the_quadratic_supply() {
    let env = Env::default();
    let mut gov = governance(&env);
    gov.total_supply = Err(GovernanceError::NotInitialized);
    let id = propose_as(&env, &mut gov, ALICE, signal(), &[], true).unwrap();
    cast_vote(&mut gov, STARTS, id, CAROL, VoteType::For).unwrap();
    assert_eq!(finalize_proposal(&mut gov, ENDS, id), Ok(ProposalStatus::Succeeded));
}

#[test]
fn success_without_delay_is_carried_out_at_once() {
    let env = Env::default();
    let mut gov = governance(&env);
    let toggle = ProposalType::FeatureToggle(text("swipe"), true);
    let id = propose(&env, &mut gov, toggle, &[]);
    cast_vote(&mut gov, STARTS, id, ALICE, VoteType::For).unwrap();
    assert_eq!(finalize_proposal(&mut gov, ENDS, id), Ok(ProposalStatus::Succeeded));
    let p = get_proposal(&gov, id).unwrap();
    assert_eq!(p.status, ProposalStatus::Executed);
    assert_eq!(p.executed_at, Some(ENDS));
    assert_eq!(gov.features.get(soroban_sdk::String::from_str(&env, "swipe")), Some(true));
    assert_eq!(gov.features.len(), 1);
    assert_eq!(gov.outbox.auths, vec![ALICE, ALICE, ALICE]);
}

#[test]
fn a_failing_action_leaves_the_proposal_succeeded() {
    let env = Env::default();
    let mut gov = governance(&env);
    let spend = ProposalType::TreasurySpend(BOB, 500, GOLD, text("grant"));
    let id = propose(&env, &mut gov, spend, &[]);
    cast_vote(&mut gov, STARTS, id, ALICE, VoteType::For).unwrap();
    gov.treasury.set(GOLD, 499);
    assert_eq!(finalize_proposal(&mut gov, ENDS, id), Ok(ProposalStatus::Succeeded));
    assert_eq!(status(&gov, id), ProposalStatus::Succeeded);
    assert_eq!(gov.treasury.amount(GOLD), 499);
    gov.treasury.set(GOLD, 500);
    assert_eq!(execute_proposal(&mut gov, ENDS, id, CAROL), Ok(ProposalStatus::Executed));
    assert_eq!(gov.treasury.amount(GOLD), 0);
    assert_eq!(gov.balances.amount(BOB), 500);
}

#[test]
fn upgrades_are_announced_with_their_delay() {
    let env = Env::default();
    let mut gov = governance(&env);
    gov.config = Some(GovernanceConfig { execution_delay: DAY, ..default_governance_config() });
    let upgrade = ProposalType::ContractUpgrade(text("vault"), bytes(&[7; 32]));
    let id = propose(&env, &mut gov, upgrade, &[8; 32]);
    cast_vote(&mut gov, STARTS, id, ALICE, VoteType::For).unwrap();
    assert_eq!(finalize_proposal(&mut gov, ENDS, id), Ok(ProposalStatus::Succeeded));
    assert_eq!(status(&gov, id), ProposalStatus::Succeeded);
    assert_eq!(
        gov.outbox.events[1],
        Event::UpgradeAnnounced {
            contract: text("vault"),
            new_hash: bytes(&[7; 32]),
            available_after: ENDS + DAY,
            payload: bytes(&[8; 32]),
        }
    );
    assert_eq!(
        execute_proposal(&mut gov, ENDS + DAY - 1, id, BOB),
        Err(GovernanceError::InvalidDuration)
    );
    assert_eq!(execute_proposal(&mut gov, ENDS + DAY, id, BOB), Ok(ProposalStatus::Executed));
    assert_eq!(
        gov.upgrades.get(soroban_sdk::String::from_str(&env, "vault")),
        Some(soroban_sdk::Bytes::from_slice(&env, &[7; 32]))
    );
    assert_eq!(
        execute_proposal(&mut gov, ENDS + DAY, id, BOB),
        Err(GovernanceError::ProposalNotApproved)
    );
}

// Execution

#[test]
fn parameters_are_set() {
    let env = Env::default();
    let mut gov = governance(&env);
    let id = propose(&env, &mut gov, ProposalType::ParameterChange(text("fee"), 100, 120), &[]);
    let p = get_proposal(&gov, id).unwrap();
    assert_eq!(execute_proposal_action(&mut gov, &p), Ok(()));
    let fee = soroban_sdk::String::from_str(&env, "fee");
    assert_eq!(gov.parameters.get(fee.clone()), Some(120));
    gov.parameters.set(fee.clone(), 5);
    assert_eq!(execute_proposal_action_by_id(&mut gov, id), Ok(()));
    assert_eq!(gov.parameters.get(fee), Some(120));
    assert_eq!(
        execute_proposal_action_by_id(&mut gov, id + 1),
        Err(GovernanceError::ProposalNotFound)
    );
}

#[test]
fn signals_and_custom_actions_change_nothing() {
    let env = Env::default();
    let mut gov = governance(&env);
    let first = propose(&env, &mut gov, signal(), &[]);
    let second = propose(&env, &mut gov, ProposalType::Custom(BOB), &[1]);
    assert_eq!(execute_proposal_action_by_id(&mut gov, first), Ok(()));
    assert_eq!(execute_proposal_action_by_id(&mut gov, second), Ok(()));
    assert!(gov.parameters.is_empty() && gov.features.is_empty() && gov.upgrades.is_empty());
    assert_eq!(gov.treasury.amount(GOLD), 5_000);
}

#[test]
fn payments_move_value() {
    let env = Env::default();
    let mut gov = governance(&env);
    gov.balances.set(BOB, 7);
    let spend = ProposalType::TreasurySpend(BOB, 500, GOLD, text("grant"));
    let id = propose(&env, &mut gov, spend, &[]);
    assert_eq!(execute_proposal_action_by_id(&mut gov, id), Ok(()));
    assert_eq!(gov.treasury.amount(GOLD), 4_500);
    assert_eq!(gov.balances.amount(BOB), 507);
    gov.treasury.set(GOLD, 499);
    assert_eq!(
        execute_proposal_action_by_id(&mut gov, id),
        Err(GovernanceError::InsufficientBalance)
    );
    assert_eq!(gov.treasury.amount(GOLD), 499);
}

#[test]
fn a_payment_that_cannot_be_credited_is_debited_all_the_same() {
    let env = Env::default();
    let mut gov = governance(&env);
    gov.balances.set(BOB, i128::MAX);
    let spend = ProposalType::TreasurySpend(BOB, 500, GOLD, text("grant"));
    let id = propose(&env, &mut gov, spend, &[]);
    assert_eq!(
        execute_proposal_action_by_id(&mut gov, id),
        Err(GovernanceError::ArithmeticOverflow)
    );
    assert_eq!(gov.treasury.amount(GOLD), 4_500);
    assert_eq!(gov.balances.amount(BOB), i128::MAX);
}

#[test]
fn execution_refusals() {
    let env = Env::default();
    let mut gov = governance(&env);
    let id = propose(&env, &mut gov, signal(), &[]);
    assert_eq!(
        execute_proposal(&mut gov, ENDS, id + 1, ALICE),
        Err(GovernanceError::ProposalNotFound)
    );
    assert_eq!(
        execute_proposal(&mut gov, ENDS, id, ALICE),
        Err(GovernanceError::ProposalNotApproved)
    );
}

#[test]
fn proposals_are_marked_as_executed() {
    let env = Env::default();
    let mut gov = governance(&env);
    let id = propose(&env, &mut gov, signal(), &[]);
    assert_eq!(
        mark_proposal_executed(&mut gov, NOW, id + 1),
        Err(GovernanceError::ProposalNotFound)
    );
    assert_eq!(mark_proposal_executed(&mut gov, NOW + 5, id), Ok(()));
    let p = get_proposal(&gov, id).unwrap();
    assert_eq!((p.status, p.executed_at), (ProposalStatus::Executed, Some(NOW + 5)));
}

#[test]
fn balances_are_credited_or_left_alone() {
    let env = Env::default();
    let mut gov = governance(&env);
    assert_eq!(add_balance(&mut gov, CAROL, i128::MAX), Ok(()));
    assert_eq!(add_balance(&mut gov, CAROL, 1), Err(GovernanceError::ArithmeticOverflow));
    assert_eq!(gov.balances.amount(CAROL), i128::MAX);
    assert_eq!(add_balance(&mut gov, CAROL, -1), Ok(()));
    assert_eq!(gov.balances.amount(CAROL), i128::MAX - 1);
}

// Cancellation and withdrawal

#[test]
fn proposer_admin_and_guardian_cancel() {
    let env = Env::default();
    let mut gov = governance(&env);
    for canceller in [ALICE, ADMIN, GUARDIAN] {
        let id = propose(&env, &mut gov, signal(), &[]);
        assert_eq!(
            cancel_proposal(&mut gov, id, STRANGER),
            Err(GovernanceError::Unauthorized)
        );
        assert_eq!(
            cancel_proposal(&mut gov, id, canceller),
            Ok(ProposalStatus::Cancelled)
        );
        assert_eq!(status(&gov, id), ProposalStatus::Cancelled);
    }
}

#[test]
fn cancellation_refusals() {
    let env = Env::default();
    let mut gov = governance(&env);
    let id = propose(&env, &mut gov, signal(), &[]);
    assert_eq!(
        cancel_proposal(&mut gov, id + 1, ALICE),
        Err(GovernanceError::ProposalNotFound)
    );
    gov.admin = None;
    assert_eq!(cancel_proposal(&mut gov, id, ALICE), Err(GovernanceError::NotInitialized));
    gov.admin = Some(ADMIN);
    gov.guardian = None;
    assert_eq!(cancel_proposal(&mut gov, id, GUARDIAN), Err(GovernanceError::Unauthorized));
    mark_proposal_executed(&mut gov, NOW, id).unwrap();
    assert_eq!(
        cancel_proposal(&mut gov, id, ADMIN),
        Err(GovernanceError::InvalidCommitteeAction)
    );
}

#[test]
fn withdrawal_returns_the_deposit() {
    let env = Env::default();
    let mut gov = governance(&env);
    gov.balances.set(ALICE, 1);
    let id = propose(&env, &mut gov, signal(), &[]);
    gov.locked_deposits.insert(id, (ALICE, 50));
    assert_eq!(
        withdraw_proposal(&mut gov, NOW + 1, id, ALICE),
        Ok(ProposalStatus::Withdrawn)
    );
    assert_eq!(status(&gov, id), ProposalStatus::Withdrawn);
    assert_eq!(gov.balances.amount(ALICE), 51);
    assert!(gov.locked_deposits.is_empty());
    assert_eq!(
        gov.outbox.events[1..],
        [
            Event::DepositRefunded { id, proposer: ALICE, amount: 50 },
            Event::ProposalWithdrawn { id, proposer: ALICE, now: NOW + 1 },
        ]
    );
}

#[test]
fn withdrawal_without_a_deposit_of_ones_own_returns_nothing() {
    let env = Env::default();
    let mut gov = governance(&env);
    let first = propose(&env, &mut gov, signal(), &[]);
    let second = propose(&env, &mut gov, signal(), &[]);
    gov.locked_deposits.insert(second, (BOB, 50));
    assert_eq!(
        withdraw_proposal(&mut gov, NOW, first, ALICE),
        Ok(ProposalStatus::Withdrawn)
    );
    assert_eq!(
        withdraw_proposal(&mut gov, NOW, second, ALICE),
        Ok(ProposalStatus::Withdrawn)
    );
    assert_eq!(gov.balances.amount(ALICE), 0);
    assert_eq!(gov.locked_deposits.get(&second), Some(&(BOB, 50)));
    assert_eq!(gov.outbox.events.len(), 4);
}

#[test]
fn a_withdrawal_whose_refund_overflows_is_refused() {
    let env = Env::default();
    let mut gov = governance(&env);
    gov.balances.set(ALICE, i128::MAX - 49);
    let id = propose(&env, &mut gov, signal(), &[]);
    gov.locked_deposits.insert(id, (ALICE, 50));
    assert_eq!(
        withdraw_proposal(&mut gov, NOW, id, ALICE),
        Err(GovernanceError::ArithmeticOverflow)
    );
    assert_eq!(status(&gov, id), ProposalStatus::Pending);
    assert_eq!(gov.balances.amount(ALICE), i128::MAX - 49);
    assert_eq!(gov.locked_deposits.get(&id), Some(&(ALICE, 50)));
    gov.balances.set(ALICE, i128::MAX - 50);
    assert_eq!(
        withdraw_proposal(&mut gov, NOW, id, ALICE),
        Ok(ProposalStatus::Withdrawn)
    );
    assert_eq!(gov.balances.amount(ALICE), i128::MAX);
    assert!(gov.locked_deposits.is_empty());
}

#[test]
fn a_failed_proposal_forfeits_its_deposit() {
    let env = Env::default();
    let mut gov = governance(&env);
    gov.treasury.set(DEPOSITS, 7);
    let first = propose(&env, &mut gov, signal(), &[]);
    let second = propose(&env, &mut gov, signal(), &[]);
    gov.locked_deposits.insert(first, (ALICE, 50));
    gov.locked_deposits.insert(second, (ALICE, 60));
    assert_eq!(finalize_proposal(&mut gov, ENDS, first), Ok(ProposalStatus::Failed));
    assert_eq!(gov.treasury.amount(DEPOSITS), 57);
    assert_eq!(gov.treasury.amount(GOLD), 5_000);
    assert_eq!(gov.balances.amount(ALICE), 0);
    assert_eq!(gov.locked_deposits.get(&first), None);
    assert_eq!(gov.locked_deposits.get(&second), Some(&(ALICE, 60)));
    assert_eq!(gov.outbox.events.len(), 2);
}

#[test]
fn a_rejected_proposal_forfeits_its_deposit() {
    let env = Env::default();
    let mut gov = governance(&env);
    let id = propose(&env, &mut gov, signal(), &[]);
    gov.locked_deposits.insert(id, (BOB, 50));
    cast_vote(&mut gov, STARTS, id, ALICE, VoteType::Against).unwrap();
    assert_eq!(finalize_proposal(&mut gov, ENDS, id), Ok(ProposalStatus::Failed));
    assert_eq!(gov.treasury.amount(DEPOSITS), 50);
    assert!(gov.locked_deposits.is_empty());
}

#[test]
fn a_successful_proposal_keeps_its_deposit_locked() {
    let env = Env::default();
    let mut gov = governance(&env);
    let id = propose(&env, &mut gov, signal(), &[]);
    gov.locked_deposits.insert(id, (ALICE, 50));
    cast_vote(&mut gov, STARTS, id, ALICE, VoteType::For).unwrap();
    assert_eq!(finalize_proposal(&mut gov, ENDS, id), Ok(ProposalStatus::Succeeded));
    assert_eq!(gov.treasury.amount(DEPOSITS), 0);
    assert_eq!(gov.locked_deposits.get(&id), Some(&(ALICE, 50)));
}

#[test]
fn a_decision_whose_forfeit_overflows_is_refused() {
    let env = Env::default();
    let mut gov = governance(&env);
    gov.treasury.set(DEPOSITS, i128::MAX);
    let id = propose(&env, &mut gov, signal(), &[]);
    gov.locked_deposits.insert(id, (ALICE, 50));
    assert_eq!(
        finalize_proposal(&mut gov, ENDS, id),
        Err(GovernanceError::ArithmeticOverflow)
    );
    assert_eq!(status(&gov, id), ProposalStatus::Pending);
    assert_eq!(gov.treasury.amount(DEPOSITS), i128::MAX);
    assert_eq!(gov.locked_deposits.get(&id), Some(&(ALICE, 50)));
}

#[test]
fn checks_tell_what_requests_answer() {
    let env = Env::default();
    let mut gov = governance(&env);
    let id = propose(&env, &mut gov, signal(), &[]);
    let vote = VoteType::For;
    assert_eq!(
        check_vote(&gov, STARTS, id, STRANGER, vote),
        Err(GovernanceError::NoVotingPower)
    );
    assert_eq!(check_vote(&gov, STARTS, id, ALICE, vote), Ok(()));
    cast_vote(&mut gov, STARTS, id, ALICE, vote).unwrap();
    assert_eq!(
        check_vote(&gov, STARTS, id, ALICE, vote),
        Err(GovernanceError::AlreadyVoted)
    );
    assert_eq!(
        check_delegation(&gov, STRANGER, BOB),
        Err(GovernanceError::NoVotingPower)
    );
    assert_eq!(check_delegation(&gov, ALICE, BOB), Ok(()));
    let (title, description) = (text("t"), text("d"));
    assert_eq!(check_proposer(&gov, ALICE, &title, &description, true, true), Ok(()));
    assert_eq!(
        check_proposer(&gov, CAROL, &title, &description, true, true),
        Err(GovernanceError::NoVotingPower)
    );
    assert_eq!(
        check_proposer(&gov, ALICE, &title, &description, true, false),
        Err(GovernanceError::InvalidProposal)
    );
}

#[test]
fn withdrawal_refusals() {
    let env = Env::default();
    let mut gov = governance(&env);
    let id = propose(&env, &mut gov, signal(), &[]);
    assert_eq!(
        withdraw_proposal(&mut gov, NOW, id + 1, ALICE),
        Err(GovernanceError::ProposalNotFound)
    );
    assert_eq!(
        withdraw_proposal(&mut gov, NOW, id, ADMIN),
        Err(GovernanceError::Unauthorized)
    );
    cast_vote(&mut gov, STARTS, id, BOB, VoteType::For).unwrap();
    assert_eq!(
        withdraw_proposal(&mut gov, STARTS, id, ALICE),
        Err(GovernanceError::ProposalNotActive)
    );
}

#[test]
fn a_withdrawn_proposal_never_changes() {
    let env = Env::default();
    let mut gov = governance(&env);
    let id = propose(&env, &mut gov, signal(), &[]);
    withdraw_proposal(&mut gov, NOW, id, ALICE).unwrap();
    let before = get_proposal(&gov, id).unwrap();
    let withdrawn = GovernanceError::ProposalAlreadyWithdrawn;
    assert_eq!(
        withdraw_proposal(&mut gov, NOW, id, ALICE),
        Err(GovernanceError::ProposalNotActive)
    );
    assert_eq!(cancel_proposal(&mut gov, id, ADMIN), Err(withdrawn));
    assert_eq!(mark_proposal_executed(&mut gov, NOW, id), Err(withdrawn));
    assert_eq!(
        cast_vote(&mut gov, STARTS, id, ALICE, VoteType::For),
        Err(GovernanceError::ProposalNotActive)
    );
    assert_eq!(finalize_proposal(&mut gov, ENDS, id), Err(GovernanceError::ProposalNotActive));
    assert_eq!(
        execute_proposal(&mut gov, ENDS, id, ALICE),
        Err(GovernanceError::ProposalNotApproved)
    );
    let mut other = before.clone();
    other.status = ProposalStatus::Pending;
    assert_eq!(put_proposal(&mut gov, &other), Err(withdrawn));
    assert_eq!(get_proposal(&gov, id), Ok(before));
}

// Statistics

#[test]
fn statistics_count_and_average() {
    let env = Env::default();
    let mut gov = governance(&env);
    gov.total_supply = Ok(20_000);
    // Executed: 10 000 for, 3 600 against; participation 6800, approval 7352.
    let id = propose(&env, &mut gov, signal(), &[]);
    cast_vote(&mut gov, STARTS, id, ALICE, VoteType::For).unwrap();
    cast_vote(&mut gov, STARTS, id, BOB, VoteType::Against).unwrap();
    finalize_proposal(&mut gov, ENDS, id).unwrap();
    // Failed: 400 abstain; participation 200.
    let id = propose(&env, &mut gov, signal(), &[]);
    cast_vote(&mut gov, STARTS, id, CAROL, VoteType::Abstain).unwrap();
    finalize_proposal(&mut gov, ENDS, id).unwrap();
    // Active: 400 for; participation 200, approval 10000.
    let id = propose(&env, &mut gov, signal(), &[]);
    cast_vote(&mut gov, STARTS, id, CAROL, VoteType::For).unwrap();
    // Pending, then withdrawn.
    propose(&env, &mut gov, signal(), &[]);
    let id = propose(&env, &mut gov, signal(), &[]);
    withdraw_proposal(&mut gov, NOW, id, ALICE).unwrap();
    let s = calculate_proposal_statistics(&gov).unwrap();
    assert_eq!(s.total_proposals, 5);
    assert_eq!(s.active_proposals, 2);
    assert_eq!(s.succeeded_proposals, 0);
    assert_eq!(s.failed_proposals, 1);
    assert_eq!(s.executed_proposals, 1);
    assert_eq!(s.avg_participation_rate, (6_800 + 200 + 200) / 5);
    assert_eq!(s.avg_approval_rate, (7_352 + 10_000) / 2);
}

#[test]
fn statistics_need_a_supply() {
    let env = Env::default();
    let mut gov = governance(&env);
    propose(&env, &mut gov, signal(), &[]);
    gov.total_supply = Err(GovernanceError::NotInitialized);
    assert_eq!(
        calculate_proposal_statistics(&gov),
        Err(GovernanceError::NotInitialized)
    );
    gov.total_supply = Ok(0);
    let s = calculate_proposal_statistics(&gov).unwrap();
    assert_eq!((s.total_proposals, s.avg_participation_rate, s.avg_approval_rate), (1, 0, 0));
}

#[test]
fn rates_are_truncated() {
    let env = Env::default();
    let mut gov = governance(&env);
    gov.total_supply = Ok(1);
    let id = propose(&env, &mut gov, signal(), &[]);
    let mut p = get_proposal(&gov, id).unwrap();
    p.votes_abstain = -1;
    put_proposal(&mut gov, &p).unwrap();
    let s = calculate_proposal_statistics(&gov).unwrap();
    assert_eq!(s.avg_participation_rate, (-10_000i128 as u64) as u32);
}

// Whole runs

#[test]
fn refused_requests_change_nothing_but_the_demands() {
    let env = Env::default();
    let mut gov = governance(&env);
    let mut same = governance(&env);
    for g in [&mut gov, &mut same] {
        propose(&env, g, signal(), &[]);
        g.outbox.auths.clear();
    }
    assert_eq!(gov, same);
    assert!(propose_as(&env, &mut gov, CAROL, signal(), &[], false).is_err());
    assert!(cast_vote(&mut gov, STARTS, 1, STRANGER, VoteType::For).is_err());
    assert!(finalize_proposal(&mut gov, STARTS, 1).is_err());
    assert!(execute_proposal(&mut gov, ENDS, 1, BOB).is_err());
    assert!(execute_proposal_action_by_id(&mut gov, 7).is_err());
    assert!(mark_proposal_executed(&mut gov, ENDS, 7).is_err());
    assert!(cancel_proposal(&mut gov, 1, STRANGER).is_err());
    assert!(withdraw_proposal(&mut gov, NOW, 1, BOB).is_err());
    assert!(delegate_voting_power(&mut gov, STRANGER, BOB).is_err());
    assert!(undelegate_voting_power(&mut gov, ALICE).is_err());
    assert_eq!(
        gov.outbox.auths,
        vec![CAROL, STRANGER, BOB, STRANGER, BOB, STRANGER, ALICE]
    );
    gov.outbox.auths.clear();
    assert_eq!(gov, same);
    cast_vote(&mut gov, STARTS, 1, ALICE, VoteType::For).unwrap();
    assert_ne!(gov, same);
}

#[test]
fn numbers_are_given_out_once_and_listed_in_order() {
    let env = Env::default();
    let mut gov = governance(&env);
    for expected in 1..=4u64 {
        assert_eq!(propose(&env, &mut gov, signal(), &[]), expected);
    }
    withdraw_proposal(&mut gov, NOW, 2, ALICE).unwrap();
    let numbers: Vec<u64> = get_all_proposals(&gov).iter().map(|p| p.id).collect();
    assert_eq!(numbers, vec![1, 2, 3, 4]);
    assert_eq!(propose(&env, &mut gov, signal(), &[]), 5);
}

#[test]
fn one_more_vote_for_does_not_hurt() {
    let env = Env::default();
    let mut gov = governance(&env);
    let first = propose(&env, &mut gov, signal(), &[]);
    let second = propose(&env, &mut gov, signal(), &[]);
    for id in [first, second] {
        cast_vote(&mut gov, STARTS, id, ALICE, VoteType::For).unwrap();
        cast_vote(&mut gov, STARTS, id, BOB, VoteType::Against).unwrap();
    }
    cast_vote(&mut gov, STARTS, second, CAROL, VoteType::For).unwrap();
    assert_eq!(finalize_proposal(&mut gov, ENDS, first), Ok(ProposalStatus::Succeeded));
    assert_eq!(finalize_proposal(&mut gov, ENDS, second), Ok(ProposalStatus::Succeeded));
}

#[test]
fn quadratic_turnout_stays_within_the_supply() {
    let env = Env::default();
    let mut gov = governance(&env);
    let id = propose_as(&env, &mut gov, ALICE, signal(), &[], true).unwrap();
    cast_vote(&mut gov, STARTS, id, ALICE, VoteType::For).unwrap();
    cast_vote(&mut gov, STARTS, id, BOB, VoteType::Against).unwrap();
    cast_vote(&mut gov, STARTS, id, CAROL, VoteType::Abstain).unwrap();
    let p = get_proposal(&gov, id).unwrap();
    assert_eq!((p.votes_for, p.votes_against, p.votes_abstain), (100, 60, 20));
    assert_eq!(p.quadratic_total_supply, 180);
}

#[test]
fn closed_proposals_stay_closed() {
    let env = Env::default();
    let mut gov = governance(&env);
    let id = propose(&env, &mut gov, signal(), &[]);
    cast_vote(&mut gov, STARTS, id, ALICE, VoteType::For).unwrap();
    finalize_proposal(&mut gov, ENDS, id).unwrap();
    assert_eq!(status(&gov, id), ProposalStatus::Executed);
    assert!(cancel_proposal(&mut gov, id, ADMIN).is_err());
    assert!(withdraw_proposal(&mut gov, ENDS, id, ALICE).is_err());
    assert_eq!(
        execute_proposal(&mut gov, ENDS, id, ALICE),
        Err(GovernanceError::ProposalNotApproved)
    );
    assert_eq!(
        finalize_proposal(&mut gov, ENDS, id),
        Err(GovernanceError::ProposalNotActive)
    );
    assert_eq!(status(&gov, id), ProposalStatus::Executed);
}
