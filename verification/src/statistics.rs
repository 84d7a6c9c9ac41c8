//! Numbers over all proposals.

use vstd::prelude::*;

use crate::finalization::BPS_DENOMINATOR;
use crate::math::{clamp_i128, saturating_add, saturating_mul, total, total_of_one_more};
use crate::meaning::{numbers_in, statistics_count_by_status};
use crate::proposals::proposals_at;
use crate::state::{Governance, GovernanceModel};
use crate::types::{GovernanceError, Proposal, ProposalModel, ProposalStatistics, ProposalStatus};

verus! {

/// The quotient, rounded towards zero.
pub open spec fn quotient(a: int, b: int) -> int {
    if a >= 0 {
        a / b
    } else {
        -((-a) / b)
    }
}

/// The number that the last 64 bits of `x` stand for.
pub open spec fn low_64_bits(x: int) -> int {
    x % 0x1_0000_0000_0000_0000
}

/// The number that the last 32 bits of `x` stand for.
pub open spec fn low_32_bits(x: int) -> int {
    x % 0x1_0000_0000
}

/// The share `part` of `whole` in basis points, as the last 64 bits tell it.
pub open spec fn rate(part: int, whole: int) -> int {
    low_64_bits(quotient(clamp_i128(part * BPS_DENOMINATOR), whole))
}

/// The sum of the rates, held within a `u64`.
pub open spec fn sum_of_rates(rates: Seq<int>) -> int {
    if total(rates) > u64::MAX {
        u64::MAX as int
    } else {
        total(rates)
    }
}

/// The mean of the rates, zero where there are none. Their sum is held within a `u64`, and of the
/// mean the last 32 bits are kept.
pub open spec fn mean_rate(rates: Seq<int>) -> int {
    if rates.len() == 0 {
        0
    } else {
        low_32_bits(sum_of_rates(rates) / rates.len() as int)
    }
}

/// Picks the proposals in the given status.
pub open spec fn in_status(status: ProposalStatus) -> spec_fn(ProposalModel) -> bool {
    |p: ProposalModel| p.status == status
}

/// Picks the proposals that can still be voted on or finalized.
pub open spec fn open_ones() -> spec_fn(ProposalModel) -> bool {
    |p: ProposalModel| p.is_open()
}

/// Picks the proposals with votes for or against.
pub open spec fn contested_ones() -> spec_fn(ProposalModel) -> bool {
    |p: ProposalModel| p.cast_votes() > 0
}

/// The share of the supply that took part in the vote on each proposal.
pub open spec fn participation_rates(all: Seq<ProposalModel>, supply: i128) -> Seq<int> {
    all.map_values(|p: ProposalModel| rate(p.total_votes(), supply as int))
}

/// The share of the votes for and against that were for, of each proposal that has any.
pub open spec fn approval_rates(all: Seq<ProposalModel>) -> Seq<int> {
    all.filter(contested_ones()).map_values(
        |p: ProposalModel| rate(p.votes_for as int, p.cast_votes()),
    )
}

/// The numbers over the given proposals.
pub open spec fn statistics_of(all: Seq<ProposalModel>, supply: i128) -> ProposalStatistics {
    ProposalStatistics {
        total_proposals: all.len() as u32,
        active_proposals: all.filter(open_ones()).len() as u32,
        succeeded_proposals: all.filter(in_status(ProposalStatus::Succeeded)).len() as u32,
        failed_proposals: all.filter(in_status(ProposalStatus::Failed)).len() as u32,
        executed_proposals: all.filter(in_status(ProposalStatus::Executed)).len() as u32,
        avg_participation_rate: if supply > 0 {
            mean_rate(participation_rates(all, supply)) as u32
        } else {
            0
        },
        avg_approval_rate: mean_rate(approval_rates(all)) as u32,
    }
}

impl GovernanceModel {
    /// The numbers over all proposals that are listed, or why there are none.
    pub open spec fn statistics(self) -> Result<ProposalStatistics, GovernanceError> {
        match self.total_supply {
            Ok(supply) => Ok(statistics_of(self.listed_proposals(), supply)),
            Err(e) => Err(e),
        }
    }
}

/// Filtering one more proposal keeps it or drops it.
proof fn lemma_filter_push(
    s: Seq<ProposalModel>,
    p: ProposalModel,
    keep: spec_fn(ProposalModel) -> bool,
)
    ensures
        s.push(p).filter(keep) == if keep(p) {
            s.filter(keep).push(p)
        } else {
            s.filter(keep)
        },
{
    reveal(Seq::filter);
    assert(s.push(p).drop_last() =~= s);
}

/// The last 64 bits of `x`.
fn truncate_to_u64(x: i128) -> (bits: u64)
    ensures
        bits == low_64_bits(x as int),
{
    assert(x as u64 == x % 0x1_0000_0000_0000_0000i128) by (bit_vector);
    #[verifier::truncate]
    let bits: u64 = x as u64;
    bits
}

/// The last 32 bits of `x`.
fn truncate_to_u32(x: u64) -> (bits: u32)
    ensures
        bits == low_32_bits(x as int),
{
    assert(x as u32 == x % 0x1_0000_0000u64) by (bit_vector);
    #[verifier::truncate]
    let bits: u32 = x as u32;
    bits
}

/// The share `part` of `whole` in basis points.
fn compute_rate(part: i128, whole: i128) -> (r: u64)
    requires
        whole > 0,
    ensures
        r == rate(part as int, whole as int),
{
    let scaled: i128 = saturating_mul(part, BPS_DENOMINATOR);
    let q: i128 = scaled / whole;
    truncate_to_u64(q)
}

/// The running numbers over the proposals seen so far.
struct Counters {
    total: u32,
    active: u32,
    succeeded: u32,
    failed: u32,
    executed: u32,
    participation_sum: u64,
    participation_count: u32,
    approval_sum: u64,
    approval_count: u32,
}

impl Counters {
    /// The counters stand for the given proposals.
    spec fn count(self, all: Seq<ProposalModel>, supply: i128) -> bool {
        &&& self.total == all.len()
        &&& self.active == all.filter(open_ones()).len()
        &&& self.succeeded == all.filter(in_status(ProposalStatus::Succeeded)).len()
        &&& self.failed == all.filter(in_status(ProposalStatus::Failed)).len()
        &&& self.executed == all.filter(in_status(ProposalStatus::Executed)).len()
        &&& supply > 0 ==> self.participation_sum == sum_of_rates(participation_rates(all, supply))
        &&& self.participation_count == if supply > 0 {
            all.len()
        } else {
            0
        }
        &&& self.approval_sum == sum_of_rates(approval_rates(all))
        &&& self.approval_count == approval_rates(all).len()
        &&& total(participation_rates(all, supply)) >= 0
        &&& total(approval_rates(all)) >= 0
        &&& self.active <= self.total
        &&& self.succeeded <= self.total
        &&& self.failed <= self.total
        &&& self.executed <= self.total
        &&& self.approval_count <= self.total
    }

    /// Counts one more proposal.
    fn add(&mut self, p: &Proposal, supply: i128, Ghost(all): Ghost<Seq<ProposalModel>>)
        requires
            old(self).count(all, supply),
            all.len() < u32::MAX,
        ensures
            final(self).count(all.push(p@), supply),
    {
        let ghost m = p@;
        proof {
            lemma_filter_push(all, m, open_ones());
            lemma_filter_push(all, m, in_status(ProposalStatus::Succeeded));
            lemma_filter_push(all, m, in_status(ProposalStatus::Failed));
            lemma_filter_push(all, m, in_status(ProposalStatus::Executed));
            lemma_filter_push(all, m, contested_ones());
            let participation = rate(m.total_votes(), supply as int);
            assert(participation_rates(all.push(m), supply) =~= participation_rates(all, supply).push(
                participation,
            ));
            total_of_one_more(participation_rates(all, supply), participation);
            let approval = rate(m.votes_for as int, m.cast_votes());
            if m.cast_votes() > 0 {
                assert(approval_rates(all.push(m)) =~= approval_rates(all).push(approval));
                total_of_one_more(approval_rates(all), approval);
            }
        }
        self.total = self.total.saturating_add(1);
        match p.status {
            ProposalStatus::Pending | ProposalStatus::Active => {
                self.active = self.active.saturating_add(1);
            },
            ProposalStatus::Succeeded => {
                self.succeeded = self.succeeded.saturating_add(1);
            },
            ProposalStatus::Failed => {
                self.failed = self.failed.saturating_add(1);
            },
            ProposalStatus::Executed => {
                self.executed = self.executed.saturating_add(1);
            },
            _ => {},
        }
        let cast_votes: i128 = saturating_add(p.votes_for, p.votes_against);
        let all_votes: i128 = saturating_add(cast_votes, p.votes_abstain);
        if supply > 0 {
            self.participation_sum = self.participation_sum.saturating_add(
                compute_rate(all_votes, supply),
            );
            self.participation_count = self.participation_count.saturating_add(1);
        }
        if cast_votes > 0 {
            self.approval_sum = self.approval_sum.saturating_add(
                compute_rate(p.votes_for, cast_votes),
            );
            self.approval_count = self.approval_count.saturating_add(1);
        }
    }
}

/// The mean of rates, zero where there are none.
fn compute_mean(sum: u64, count: u32, Ghost(rates): Ghost<Seq<int>>) -> (mean: u32)
    requires
        count == rates.len(),
        count > 0 ==> sum == sum_of_rates(rates),
    ensures
        mean == mean_rate(rates),
{
    if count > 0 {
        truncate_to_u32(sum / count as u64)
    } else {
        0
    }
}

/// The numbers over all proposals that are listed. Without a token supply there are none.
pub fn calculate_proposal_statistics(gov: &Governance) -> (result: Result<
    ProposalStatistics,
    GovernanceError,
>)
    ensures
        result == gov@.statistics(),
        result matches Ok(s) ==> {
            &&& s.succeeded_proposals == numbers_in(gov@, ProposalStatus::Succeeded).len()
            &&& s.failed_proposals == numbers_in(gov@, ProposalStatus::Failed).len()
            &&& s.executed_proposals == numbers_in(gov@, ProposalStatus::Executed).len()
        },
{
    let supply: i128 = match gov.total_supply {
        Ok(supply) => supply,
        Err(e) => {
            return Err(e);
        },
    };
    let mut counters = Counters {
        total: 0,
        active: 0,
        succeeded: 0,
        failed: 0,
        executed: 0,
        participation_sum: 0,
        participation_count: 0,
        approval_sum: 0,
        approval_count: 0,
    };
    let ghost m = gov@;
    let n: u32 = gov.proposals.proposal_ids.len();
    let mut i: u32 = 0;
    proof {
        reveal(Seq::filter);
    }
    while i < n
        invariant
            i <= n,
            m == gov@,
            n == m.proposal_ids.len(),
            proposals_at(m.proposals, m.proposal_ids.take(i as int)).len() <= i,
            counters.count(proposals_at(m.proposals, m.proposal_ids.take(i as int)), supply),
        decreases n - i,
    {
        let ghost seen = proposals_at(m.proposals, m.proposal_ids.take(i as int));
        assert(m.proposal_ids.take(i + 1).drop_last() =~= m.proposal_ids.take(i as int));
        if let Some(id) = gov.proposals.proposal_ids.get(i) {
            if let Some(p) = gov.proposals.proposals.get(&id) {
                counters.add(p, supply, Ghost(seen));
            }
        }
        i += 1;
    }
    assert(m.proposal_ids.take(n as int) =~= m.proposal_ids);
    let ghost all = m.listed_proposals();
    proof {
        statistics_count_by_status(m);
    }
    let avg_participation_rate: u32 = if supply > 0 {
        compute_mean(
            counters.participation_sum,
            counters.participation_count,
            Ghost(participation_rates(all, supply)),
        )
    } else {
        0
    };
    let avg_approval_rate: u32 = compute_mean(
        counters.approval_sum,
        counters.approval_count,
        Ghost(approval_rates(all)),
    );
    Ok(
        ProposalStatistics {
            total_proposals: counters.total,
            active_proposals: counters.active,
            succeeded_proposals: counters.succeeded,
            failed_proposals: counters.failed,
            executed_proposals: counters.executed,
            avg_participation_rate,
            avg_approval_rate,
        },
    )
}

} // verus!
