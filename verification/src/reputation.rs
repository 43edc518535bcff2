//! Reputation ledger: a per-agent score driven by validator decisions.
//!
//! Every decision applies a fixed delta — a clean match earns one point, a
//! mismatch costs one, a suspicious result costs five — and the flags owed
//! after an update are planned here so that the caller can write score and
//! flags in one transaction.  The score is a plain sum, so applying the
//! same decisions in any order lands on the same score;
//! `lemma_reputation_order_independent` states that law.

use vstd::prelude::*;

use vstd::seq_lib::group_to_multiset_ensures;

use crate::validator::Decision;

verus! {

/// The delta each decision applies: +1 for a match, −1 for a mismatch, −5
/// for a suspicious result.
pub open spec fn spec_reputation_delta(d: Decision) -> int {
    match d {
        Decision::Valid => 1,
        Decision::NeedsRecheck => -1,
        Decision::Suspicious => -5,
    }
}

/// The delta a decision applies to the agent's score.
pub fn reputation_delta(decision: &Decision) -> (r: i64)
    ensures
        r == spec_reputation_delta(*decision),
{
    match decision {
        Decision::Valid => 1,
        Decision::NeedsRecheck => -1,
        Decision::Suspicious => -5,
    }
}

/// The score at or under which an agent is flagged for low reputation.
pub const LOW_REPUTATION_THRESHOLD: i64 = -10;

/// Apply one decision's delta to a score.
pub fn apply_delta(score: i64, decision: &Decision) -> (r: i64)
    requires
        i64::MIN + 5 <= score <= i64::MAX - 1,
    ensures
        r == score + spec_reputation_delta(*decision),
{
    match decision {
        Decision::Valid => score + 1,
        Decision::NeedsRecheck => score - 1,
        Decision::Suspicious => score - 5,
    }
}

/// A reason the validator attaches to an audit flag.
#[derive(Clone, Copy, PartialEq, Eq, Structural, Debug)]
pub enum FlagReason {
    SuspiciousResult,
    LowReputation,
    SandboxRecheck,
    SandboxError,
}

impl FlagReason {
    /// The tag each flag is recorded under.
    pub fn as_str(&self) -> (r: &'static str)
        ensures
            *self == FlagReason::SuspiciousResult ==> r@ == "suspicious_result"@,
            *self == FlagReason::LowReputation ==> r@ == "low_reputation"@,
            *self == FlagReason::SandboxRecheck ==> r@ == "sandbox_recheck"@,
            *self == FlagReason::SandboxError ==> r@ == "sandbox_error"@,
    {
        match self {
            FlagReason::SuspiciousResult => "suspicious_result",
            FlagReason::LowReputation => "low_reputation",
            FlagReason::SandboxRecheck => "sandbox_recheck",
            FlagReason::SandboxError => "sandbox_error",
        }
    }
}

/// The flags owed after one reputation update: a suspicious decision is
/// flagged at once, and a post-update score at or under the threshold is
/// flagged for low reputation.  Both belong in the same transaction as the
/// score update.
pub fn plan_validation_flags(decision: &Decision, new_score: i64) -> (r: Vec<FlagReason>)
    ensures
        r@ == (if *decision == Decision::Suspicious {
            seq![FlagReason::SuspiciousResult]
        } else {
            Seq::empty()
        }) + (if new_score <= LOW_REPUTATION_THRESHOLD {
            seq![FlagReason::LowReputation]
        } else {
            Seq::empty()
        }),
{
    let mut r: Vec<FlagReason> = Vec::new();
    if matches!(decision, Decision::Suspicious) {
        r.push(FlagReason::SuspiciousResult);
    }
    if new_score <= LOW_REPUTATION_THRESHOLD {
        r.push(FlagReason::LowReputation);
    }
    proof {
        assert(r@ =~= (if *decision == Decision::Suspicious {
            seq![FlagReason::SuspiciousResult]
        } else {
            Seq::<FlagReason>::empty()
        }) + (if new_score <= LOW_REPUTATION_THRESHOLD {
            seq![FlagReason::LowReputation]
        } else {
            Seq::<FlagReason>::empty()
        }));
    }
    r
}

/// The sum of a sequence of deltas.
pub open spec fn spec_sum(ds: Seq<int>) -> int
    decreases ds.len(),
{
    if ds.len() == 0 {
        0
    } else {
        spec_sum(ds.drop_last()) + ds.last()
    }
}

/// The score after applying every delta in order.
pub open spec fn spec_apply_all(score: int, ds: Seq<int>) -> int {
    score + spec_sum(ds)
}

/// Removing one element takes exactly its value out of the sum.
pub proof fn lemma_sum_remove(ds: Seq<int>, i: int)
    requires
        0 <= i < ds.len(),
    ensures
        spec_sum(ds.remove(i)) == spec_sum(ds) - ds[i],
    decreases ds.len(),
{
    if i == ds.len() - 1 {
        assert(ds.remove(i) =~= ds.drop_last());
    } else {
        assert(ds.remove(i).drop_last() =~= ds.drop_last().remove(i));
        assert(ds.remove(i).last() == ds.last());
        lemma_sum_remove(ds.drop_last(), i);
    }
}

/// The sum of deltas depends only on which deltas occur, not on their
/// order: sequences with the same multiset of deltas sum alike.
pub proof fn lemma_sum_permutation(ds1: Seq<int>, ds2: Seq<int>)
    requires
        ds1.to_multiset() == ds2.to_multiset(),
    ensures
        spec_sum(ds1) == spec_sum(ds2),
    decreases ds1.len(),
{
    broadcast use group_to_multiset_ensures;

    if ds1.len() == 0 {
        assert(ds2.to_multiset().len() == 0);
        assert(ds2.len() == 0);
    } else {
        let x = ds1.last();
        assert(ds1.contains(x));
        assert(ds1.to_multiset().count(x) > 0);
        assert(ds2.to_multiset().count(x) > 0);
        assert(ds2.contains(x));
        let j = choose|j: int| 0 <= j < ds2.len() && ds2[j] == x;
        assert(ds1.drop_last() =~= ds1.remove(ds1.len() - 1));
        assert(ds1.remove(ds1.len() - 1).to_multiset() =~= ds1.to_multiset().remove(x));
        assert(ds2.remove(j).to_multiset() =~= ds2.to_multiset().remove(x));
        lemma_sum_permutation(ds1.drop_last(), ds2.remove(j));
        lemma_sum_remove(ds2, j);
    }
}

/// Monotone reputation: applying the same validator decisions in any order
/// yields the same final score.
pub proof fn lemma_reputation_order_independent(score: int, ds1: Seq<int>, ds2: Seq<int>)
    requires
        ds1.to_multiset() == ds2.to_multiset(),
    ensures
        spec_apply_all(score, ds1) == spec_apply_all(score, ds2),
{
    lemma_sum_permutation(ds1, ds2);
}

/// The deltas of a sequence of decisions.
pub open spec fn deltas_of(ds: Seq<Decision>) -> Seq<int> {
    ds.map_values(|d: Decision| spec_reputation_delta(d))
}

/// Apply a batch of decisions to a score, left to right.
pub fn apply_decisions(score: i64, decisions: &Vec<Decision>) -> (r: i64)
    requires
        -1000000000000 <= score <= 1000000000000,
        decisions@.len() <= 1000000,
    ensures
        r == spec_apply_all(score as int, deltas_of(decisions@)),
{
    let len = decisions.len();
    let mut acc: i64 = score;
    let mut i: usize = 0;
    while i < len
        invariant
            i <= len,
            len == decisions@.len(),
            len <= 1000000,
            -1000000000000 <= score <= 1000000000000,
            acc == spec_apply_all(score as int, deltas_of(decisions@).take(i as int)),
            -1000000000000 - 5 * i <= acc <= 1000000000000 + i,
        decreases len - i,
    {
        proof {
            assert(deltas_of(decisions@).take(i + 1).drop_last() =~= deltas_of(
                decisions@,
            ).take(i as int));
            assert(deltas_of(decisions@).take(i + 1).last() == spec_reputation_delta(
                decisions@[i as int],
            ));
        }
        acc = apply_delta(acc, &decisions[i]);
        i = i + 1;
    }
    proof {
        assert(deltas_of(decisions@).take(len as int) =~= deltas_of(decisions@));
    }
    acc
}

} // verus!
