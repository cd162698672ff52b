//! Derives the per-run money figures from account equity and the size of the
//! target set.
//!
//! All amounts are whole units of currency. `buying_power` keeps back a 2%
//! buffer of equity, truncated toward zero; `desired_allocation` divides it
//! evenly over the targets, truncating, so the remainder stays unallocated;
//! `rebalance_threshold` is one tenth of a percent of buying power, rounded
//! half away from zero.

use vstd::prelude::*;
use vstd::arithmetic::div_mod::lemma_div_is_ordered;
use vstd::arithmetic::div_mod::lemma_div_multiples_vanish;
use vstd::arithmetic::div_mod::lemma_div_nonincreasing;
use vstd::arithmetic::div_mod::lemma_div_pos_is_pos;
use vstd::arithmetic::div_mod::lemma_fundamental_div_mod;
use vstd::arithmetic::div_mod::lemma_mod_division_less_than_divisor;
use vstd::arithmetic::mul::lemma_mul_inequality;
use vstd::arithmetic::mul::lemma_mul_is_commutative;

verus! {

/// The money figures a single rebalancing run works from.
#[derive(Clone, Copy, Debug, PartialEq, Eq, Structural)]
pub struct AllocationPlan {
    /// Equity less a 2% buffer, truncated to a whole currency unit.
    pub buying_power: i64,
    /// The amount each target asset should end up holding.
    pub desired_allocation: i64,
    /// Deviations below this amount are left alone.
    pub rebalance_threshold: i64,
}

/// A fatal precondition failure: no order may be placed from such a state.
#[derive(Clone, Copy, Debug, PartialEq, Eq, Structural)]
pub enum PlanError {
    /// The target list was empty, so there is nothing to allocate toward.
    EmptyTargetList,
    /// Account equity was zero or negative, so no basis for allocation exists.
    NonPositiveEquity,
}

/// 98% of equity, truncated toward zero.
pub open spec fn spec_buying_power(equity: int) -> int {
    equity * 98 / 100
}

/// Buying power divided evenly over the targets, truncating.
pub open spec fn spec_desired_allocation(buying_power: int, n_targets: int) -> int
    recommends
        n_targets > 0,
{
    buying_power / n_targets
}

/// One tenth of a percent of buying power, rounded half away from zero
/// (buying power is never negative here).
pub open spec fn spec_rebalance_threshold(buying_power: int) -> int {
    (buying_power + 500) / 1000
}

/// Everything the calculator promises of a successful plan.
pub open spec fn plan_obeys(plan: AllocationPlan, equity: int, n_targets: int) -> bool {
    &&& plan.buying_power == spec_buying_power(equity)
    &&& plan.desired_allocation == spec_desired_allocation(plan.buying_power as int, n_targets)
    &&& plan.rebalance_threshold == spec_rebalance_threshold(plan.buying_power as int)
}

/// Derives the allocation plan for one run. An empty target list or
/// non-positive equity is a fatal precondition failure, reported to the
/// caller before any order could be placed.
pub fn compute_allocation_plan(equity: i64, n_targets: usize) -> (r: Result<
    AllocationPlan,
    PlanError,
>)
    ensures
        r matches Ok(plan) <==> (n_targets > 0 && equity > 0),
        r matches Ok(plan) ==> plan_obeys(plan, equity as int, n_targets as int),
        r matches Ok(plan) ==> 0 <= plan.buying_power <= equity && 0 <= plan.desired_allocation
            && 0 <= plan.rebalance_threshold,
        n_targets == 0 ==> r == Err::<AllocationPlan, PlanError>(PlanError::EmptyTargetList),
        n_targets > 0 && equity <= 0 ==> r == Err::<AllocationPlan, PlanError>(
            PlanError::NonPositiveEquity,
        ),
{
    if n_targets == 0 {
        return Err(PlanError::EmptyTargetList);
    }
    if equity <= 0 {
        return Err(PlanError::NonPositiveEquity);
    }
    proof {
        lemma_buying_power_bounds(equity as int);
    }
    let wide_equity: i128 = equity as i128;
    let wide_buying_power: i128 = wide_equity * 98 / 100;
    let buying_power: i64 = wide_buying_power as i64;
    let wide_targets: i128 = n_targets as i128;
    proof {
        lemma_div_pos_is_pos(buying_power as int, wide_targets as int);
        lemma_div_is_ordered(0, buying_power as int + 500, 1000);
        lemma_div_nonincreasing(buying_power as int, wide_targets as int);
        lemma_div_is_ordered(buying_power as int + 500, i64::MAX as int + 500, 1000);
    }
    let desired_allocation: i64 = ((buying_power as i128) / wide_targets) as i64;
    let rebalance_threshold: i64 = (((buying_power as i128) + 500) / 1000) as i64;
    Ok(
        AllocationPlan {
            buying_power,
            desired_allocation,
            rebalance_threshold,
        },
    )
}

/// For positive equity, keeping back the 2% buffer neither goes negative nor
/// exceeds the equity it came from.
proof fn lemma_buying_power_bounds(equity: int)
    requires
        equity > 0,
    ensures
        0 <= spec_buying_power(equity) <= equity,
{
    lemma_mul_inequality(98, 100, equity);
    lemma_mul_is_commutative(equity, 98);
    lemma_mul_is_commutative(equity, 100);
    lemma_div_is_ordered(equity * 98, equity * 100, 100);
    lemma_div_multiples_vanish(equity, 100);
    lemma_div_pos_is_pos(equity * 98, 100);
}

/// The truncating division that yields `desired_allocation` wastes less than
/// one unit per target: `desired_allocation * n` never exceeds buying power,
/// and falls short of it by less than `n`.
pub proof fn lemma_allocation_remainder_bound(plan: AllocationPlan, equity: int, n_targets: int)
    requires
        n_targets > 0,
        equity > 0,
        plan_obeys(plan, equity, n_targets),
    ensures
        plan.desired_allocation * n_targets <= plan.buying_power,
        plan.buying_power < plan.desired_allocation * n_targets + n_targets,
{
    lemma_fundamental_div_mod(plan.buying_power as int, n_targets);
    lemma_mod_division_less_than_divisor(plan.buying_power as int, n_targets);
    lemma_mul_is_commutative(n_targets, plan.desired_allocation as int);
}

} // verus!
