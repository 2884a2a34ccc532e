//! The Monte Carlo evaluation harness: run many independent trials per
//! strategy - the trial at index `i` seeded deterministically with `i` - and
//! fold the per-trial scores into aggregate statistics. A batch's scores are
//! carried alongside the aggregate as a ghost sequence, and well-formedness
//! ties every statistic exactly to it.

use vstd::prelude::*;

use crate::engine::simulate_game;
use crate::strategy::StrategyKind;
use crate::strategy::spec_strategy_name;
use vstd::string::StringExecFns;

verus! {

/// Sum of a batch of scores.
pub open spec fn score_sum(scores: Seq<u8>) -> int
    decreases scores.len(),
{
    if scores.len() == 0 {
        0
    } else {
        score_sum(scores.drop_last()) + scores.last()
    }
}

/// How many of a batch of scores are exactly zero ("gravies").
pub open spec fn zero_count_of(scores: Seq<u8>) -> int
    decreases scores.len(),
{
    if scores.len() == 0 {
        0
    } else {
        zero_count_of(scores.drop_last()) + if scores.last() == 0u8 {
            1int
        } else {
            0int
        }
    }
}

/// Per-strategy aggregate statistics over one batch of trials.
pub struct Aggregates {
    /// Number of trials run.
    pub count: u64,
    /// Sum of all trial scores; the average score is total over count.
    pub total: u64,
    /// Lowest trial score; `u8::MAX` while no trial has run.
    pub minimum: u8,
    /// Highest trial score; 0 while no trial has run.
    pub maximum: u8,
    /// Number of trials whose score was exactly zero.
    pub zero_count: u64,
    /// The batch's scores themselves, for specification only.
    pub scores: Ghost<Seq<u8>>,
}

/// Every statistic says exactly what it claims of the batch's scores.
pub open spec fn aggregates_wf(a: Aggregates) -> bool {
    &&& a.scores@.len() == a.count
    &&& a.total == score_sum(a.scores@)
    &&& a.zero_count == zero_count_of(a.scores@)
    &&& forall|i: int|
        0 <= i < a.scores@.len() ==> a.minimum <= (#[trigger] a.scores@[i]) <= a.maximum
    &&& (a.count > 0 ==> exists|i: int|
        0 <= i < a.scores@.len() && (#[trigger] a.scores@[i]) == a.minimum)
    &&& (a.count > 0 ==> exists|i: int|
        0 <= i < a.scores@.len() && (#[trigger] a.scores@[i]) == a.maximum)
    &&& (a.count == 0 ==> a.minimum == u8::MAX && a.maximum == 0)
}

/// A sum of scores that all lie between `lo` and `hi` lies between
/// `lo * count` and `hi * count`.
proof fn lemma_score_sum_bounds(scores: Seq<u8>, lo: u8, hi: u8)
    requires
        forall|i: int| 0 <= i < scores.len() ==> lo <= (#[trigger] scores[i]) <= hi,
    ensures
        lo * scores.len() <= score_sum(scores) <= hi * scores.len(),
    decreases scores.len(),
{
    if scores.len() > 0 {
        let rest = scores.drop_last();
        assert(forall|i: int| 0 <= i < rest.len() ==> lo <= (#[trigger] rest[i]) <= hi);
        lemma_score_sum_bounds(rest, lo, hi);
        assert(lo <= scores.last() <= hi);
        assert(lo * scores.len() == lo * rest.len() + lo) by (nonlinear_arith)
            requires
                scores.len() == rest.len() + 1,
        ;
        assert(hi * scores.len() == hi * rest.len() + hi) by (nonlinear_arith)
            requires
                scores.len() == rest.len() + 1,
        ;
    }
}

/// Aggregate consistency: over any well-formed batch with at least one
/// trial, minimum * count <= total <= maximum * count - so the average,
/// total over count, lies between minimum and maximum - and zero_count is
/// exactly the number of trials whose score was zero.
pub proof fn lemma_aggregate_consistency(a: Aggregates)
    requires
        aggregates_wf(a),
        a.count > 0,
    ensures
        a.minimum * a.count <= a.total,
        a.total <= a.maximum * a.count,
        a.zero_count == zero_count_of(a.scores@),
{
    lemma_score_sum_bounds(a.scores@, a.minimum, a.maximum);
}

/// Run `num_simulations` independent games of one strategy, the trial at
/// index `i` seeded with `i`, and fold the scores into running aggregates.
/// No state crosses trial boundaries; every score stays at or below the
/// default pool's slack of 87, so the total fits as long as
/// `num_simulations * 87` does.
pub fn run_simulations(strategy: StrategyKind, num_simulations: u64) -> (r: Aggregates)
    requires
        num_simulations * 87 <= u64::MAX,
    ensures
        aggregates_wf(r),
        r.count == num_simulations,
        forall|i: int| 0 <= i < r.scores@.len() ==> (#[trigger] r.scores@[i]) <= 87,
{
    let mut total_points: u64 = 0;
    let mut gravies: u64 = 0;
    let mut min_points: u8 = u8::MAX;
    let mut max_points: u8 = 0;
    let ghost mut scores = Seq::<u8>::empty();
    let mut i: u64 = 0;
    while i < num_simulations
        invariant
            i <= num_simulations,
            num_simulations * 87 <= u64::MAX,
            scores.len() == i,
            total_points == score_sum(scores),
            gravies == zero_count_of(scores),
            gravies <= i,
            total_points <= 87 * i,
            forall|j: int| 0 <= j < scores.len() ==> min_points <= (#[trigger] scores[j]) <= max_points,
            forall|j: int| 0 <= j < scores.len() ==> (#[trigger] scores[j]) <= 87,
            (i > 0 ==> exists|j: int| 0 <= j < scores.len() && (#[trigger] scores[j]) == min_points),
            (i > 0 ==> exists|j: int| 0 <= j < scores.len() && (#[trigger] scores[j]) == max_points),
            (i == 0 ==> min_points == u8::MAX && max_points == 0),
        decreases num_simulations - i,
    {
        let points = simulate_game(strategy, i);
        proof {
            assert(87 * (i + 1) <= 87 * num_simulations) by (nonlinear_arith)
                requires
                    i + 1 <= num_simulations,
            ;
            assert(scores.push(points).drop_last() =~= scores);
        }
        total_points = total_points + points as u64;
        if points == 0 {
            gravies = gravies + 1;
        }
        if points < min_points {
            min_points = points;
        }
        if points > max_points {
            max_points = points;
        }
        proof {
            let prev = scores;
            scores = scores.push(points);
            assert(forall|j: int| 0 <= j < prev.len() ==> #[trigger] scores[j] == prev[j]);
            assert(scores[scores.len() - 1] == points);
            assert(exists|j: int|
                0 <= j < scores.len() && (#[trigger] scores[j]) == min_points) by {
                if min_points == points {
                    assert(scores[scores.len() - 1] == min_points);
                } else {
                    let w = choose|j: int| 0 <= j < prev.len() && (#[trigger] prev[j]) == min_points;
                    assert(scores[w] == min_points);
                }
            }
            assert(exists|j: int|
                0 <= j < scores.len() && (#[trigger] scores[j]) == max_points) by {
                if max_points == points {
                    assert(scores[scores.len() - 1] == max_points);
                } else {
                    let w = choose|j: int| 0 <= j < prev.len() && (#[trigger] prev[j]) == max_points;
                    assert(scores[w] == max_points);
                }
            }
        }
        i = i + 1;
    }
    proof {
        if num_simulations > 0 {
            assert(exists|j: int| 0 <= j < scores.len() && (#[trigger] scores[j]) == min_points);
            assert(exists|j: int| 0 <= j < scores.len() && (#[trigger] scores[j]) == max_points);
        }
    }
    Aggregates {
        count: num_simulations,
        total: total_points,
        minimum: min_points,
        maximum: max_points,
        zero_count: gravies,
        scores: Ghost(scores),
    }
}

/// The registry: every catalog strategy under its display name, in a fixed
/// order. New strategies are added here without touching the harness.
pub fn default_strategies() -> (r: Vec<(String, StrategyKind)>)
    ensures
        r@.len() == 8,
        forall|i: int|
            0 <= i < r@.len() ==> (#[trigger] r@[i].0)@ == spec_strategy_name(r@[i].1),
        r@[0].1 == StrategyKind::MinPoints,
        r@[1].1 == StrategyKind::ZeroOrMin,
        r@[2].1 == StrategyKind::SameValue,
        r@[3].1 == StrategyKind::PrioritizeMaxValue,
        r@[4].1 == StrategyKind::MinimizeRegret,
        r@[5].1 == StrategyKind::Hybrid,
        r@[6].1 == StrategyKind::ZeroOrBigMin,
        r@[7].1 == StrategyKind::BigZeroOrMin,
{
    let mut r: Vec<(String, StrategyKind)> = Vec::new();
    r.push((StrategyKind::MinPoints.name(), StrategyKind::MinPoints));
    r.push((StrategyKind::ZeroOrMin.name(), StrategyKind::ZeroOrMin));
    r.push((StrategyKind::SameValue.name(), StrategyKind::SameValue));
    r.push((StrategyKind::PrioritizeMaxValue.name(), StrategyKind::PrioritizeMaxValue));
    r.push((StrategyKind::MinimizeRegret.name(), StrategyKind::MinimizeRegret));
    r.push((StrategyKind::Hybrid.name(), StrategyKind::Hybrid));
    r.push((StrategyKind::ZeroOrBigMin.name(), StrategyKind::ZeroOrBigMin));
    r.push((StrategyKind::BigZeroOrMin.name(), StrategyKind::BigZeroOrMin));
    r
}

/// Run one batch per registered strategy and hand back each aggregate under
/// its strategy's name, in registry order. The caller owns the result; there
/// is no process-wide state.
pub fn evaluate(strategies: &Vec<(String, StrategyKind)>, trial_count: u64) -> (r: Vec<
    (String, Aggregates),
>)
    requires
        trial_count * 87 <= u64::MAX,
    ensures
        r@.len() == strategies@.len(),
        forall|i: int|
            0 <= i < r@.len() ==> (#[trigger] r@[i].0)@ == strategies@[i].0@ && aggregates_wf(
                r@[i].1,
            ) && r@[i].1.count == trial_count,
{
    let mut r: Vec<(String, Aggregates)> = Vec::new();
    let mut i: usize = 0;
    while i < strategies.len()
        invariant
            i <= strategies@.len(),
            trial_count * 87 <= u64::MAX,
            r@.len() == i,
            forall|j: int|
                0 <= j < i ==> (#[trigger] r@[j].0)@ == strategies@[j].0@ && aggregates_wf(
                    r@[j].1,
                ) && r@[j].1.count == trial_count,
        decreases strategies@.len() - i,
    {
        let pair = &strategies[i];
        let agg = run_simulations(pair.1, trial_count);
        r.push((pair.0.clone(), agg));
        i += 1;
    }
    r
}

} // verus!
