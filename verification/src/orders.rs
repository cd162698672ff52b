//! Turns the four action sets into the four submission stages of trade
//! calls, and assembles a whole rebalancing run from a snapshot.
//!
//! Notional amounts are currency-denominated order sizes: a sell-down sells
//! the excess over the desired allocation, a buy-up buys the shortfall, and
//! a fresh buy takes the full desired allocation. A liquidation is a
//! position-close call and carries no notional amount.

use vstd::prelude::*;
use crate::allocation::AllocationPlan;
use crate::allocation::PlanError;
use crate::allocation::compute_allocation_plan;
use crate::allocation::plan_obeys;
use crate::classifier::ActionSets;
use crate::classifier::action_sets_obey;
use crate::classifier::buy_up_pred;
use crate::classifier::classify;
use crate::classifier::sell_down_pred;
use crate::model::AssetDescriptor;
use crate::model::Position;
use crate::target::TargetSet;

verus! {

/// Which way an order trades.
#[derive(Clone, Copy, Debug, PartialEq, Eq, Structural)]
pub enum Side {
    Buy,
    Sell,
}

/// One call the execution pipeline will make against the brokerage.
#[derive(Clone, Debug, PartialEq, Eq)]
pub enum TradeCall {
    /// Close the whole position; not an order, so no notional amount.
    Close { symbol: String },
    /// One market order sized by a notional currency amount.
    Order { symbol: String, side: Side, notional: u64 },
}

/// The call that liquidates a position entirely.
pub open spec fn spec_close_call(p: Position) -> TradeCall {
    TradeCall::Close { symbol: p.symbol }
}

/// The order that sells a position down to the desired allocation.
pub open spec fn spec_sell_call(p: Position, desired: int) -> TradeCall {
    TradeCall::Order {
        symbol: p.symbol,
        side: Side::Sell,
        notional: (p.market_value->0 - desired) as u64,
    }
}

/// The order that buys a position up to the desired allocation.
pub open spec fn spec_buy_up_call(p: Position, desired: int) -> TradeCall {
    TradeCall::Order {
        symbol: p.symbol,
        side: Side::Buy,
        notional: (desired - p.market_value->0) as u64,
    }
}

/// The order that opens a fresh position at the full desired allocation.
pub open spec fn spec_buy_new_call(a: AssetDescriptor, desired: int) -> TradeCall {
    TradeCall::Order { symbol: a.symbol, side: Side::Buy, notional: desired as u64 }
}

/// What stage building needs of its input: the plan's allocation is not
/// negative, every sell-down entry has a known market value above it, and
/// every buy-up entry a known market value at or below it. The classifier
/// guarantees all of this.
pub open spec fn actions_feasible(acts: ActionSets, plan: AllocationPlan) -> bool {
    &&& plan.desired_allocation >= 0
    &&& forall|i: int|
        0 <= i < acts.sell_down@.len() ==> ((#[trigger] acts.sell_down@[i]).market_value matches
            Some(mv) && mv > plan.desired_allocation)
    &&& forall|i: int|
        0 <= i < acts.buy_up@.len() ==> ((#[trigger] acts.buy_up@[i]).market_value matches Some(mv)
            && mv <= plan.desired_allocation)
}

/// Action sets that obey the classification rule are feasible whenever the
/// plan's desired allocation is not negative.
pub proof fn lemma_classified_actions_feasible(
    r: ActionSets,
    positions: Seq<Position>,
    targets: Seq<AssetDescriptor>,
    plan: AllocationPlan,
)
    requires
        action_sets_obey(r, positions, targets, plan),
        plan.desired_allocation >= 0,
    ensures
        actions_feasible(r, plan),
{
    let tids = crate::target::spec_ids(targets);
    assert forall|i: int|
        0 <= i < r.sell_down@.len() implies ((#[trigger] r.sell_down@[i]).market_value matches Some(
        mv,
    ) && mv > plan.desired_allocation) by {
        positions.lemma_filter_pred(sell_down_pred(tids, plan), i);
    }
    assert forall|i: int|
        0 <= i < r.buy_up@.len() implies ((#[trigger] r.buy_up@[i]).market_value matches Some(mv)
            && mv <= plan.desired_allocation) by {
        positions.lemma_filter_pred(buy_up_pred(tids, plan), i);
    }
}

/// The stage lists as mathematical sequences.
pub open spec fn stage_views(stages: Seq<Vec<TradeCall>>) -> Seq<Seq<TradeCall>> {
    stages.map_values(|v: Vec<TradeCall>| v@)
}

/// Exactly what stage building promises: four stages in pipeline order —
/// liquidations, sell-downs, buy-ups, fresh buys — each mapping its action
/// set element-wise, in order.
pub open spec fn stages_obey(
    stages: Seq<Seq<TradeCall>>,
    acts: ActionSets,
    plan: AllocationPlan,
) -> bool {
    let desired = plan.desired_allocation as int;
    &&& stages.len() == 4
    &&& stages[0] == acts.liquidate@.map_values(|p: Position| spec_close_call(p))
    &&& stages[1] == acts.sell_down@.map_values(|p: Position| spec_sell_call(p, desired))
    &&& stages[2] == acts.buy_up@.map_values(|p: Position| spec_buy_up_call(p, desired))
    &&& stages[3] == acts.buy_new@.map_values(|a: AssetDescriptor| spec_buy_new_call(a, desired))
}

/// Builds the four submission stages from the action sets, computing each
/// call's notional amount.
pub fn build_trade_stages(actions: ActionSets, plan: AllocationPlan) -> (stages: Vec<
    Vec<TradeCall>,
>)
    requires
        actions_feasible(actions, plan),
    ensures
        stages_obey(stage_views(stages@), actions, plan),
{
    let desired = plan.desired_allocation;
    let ghost desired_int = desired as int;

    let mut closes: Vec<TradeCall> = Vec::new();
    let mut rest = actions.liquidate;
    let ghost mut done: int = 0;
    proof {
        assert(actions.liquidate@.subrange(0, 0) =~= Seq::<Position>::empty());
        assert(closes@ =~= Seq::<Position>::empty().map_values(|p: Position| spec_close_call(p)));
    }
    while rest.len() > 0
        invariant
            0 <= done <= actions.liquidate@.len(),
            rest@ =~= actions.liquidate@.subrange(done, actions.liquidate@.len() as int),
            closes@ == actions.liquidate@.subrange(0, done).map_values(
                |p: Position| spec_close_call(p),
            ),
        decreases rest@.len(),
    {
        let ghost prev = actions.liquidate@.subrange(0, done);
        let p = rest.remove(0);
        proof {
            assert(p == actions.liquidate@[done]);
            assert(actions.liquidate@.subrange(0, done + 1) =~= prev.push(p));
            assert(prev.push(p).map_values(|q: Position| spec_close_call(q)) =~= prev.map_values(
                |q: Position| spec_close_call(q),
            ).push(spec_close_call(p)));
        }
        closes.push(TradeCall::Close { symbol: p.symbol });
        proof {
            done = done + 1;
        }
    }
    proof {
        assert(actions.liquidate@.subrange(0, actions.liquidate@.len() as int)
            =~= actions.liquidate@);
    }

    let mut sells: Vec<TradeCall> = Vec::new();
    let mut rest = actions.sell_down;
    let ghost mut done: int = 0;
    proof {
        assert(actions.sell_down@.subrange(0, 0) =~= Seq::<Position>::empty());
        assert(sells@ =~= Seq::<Position>::empty().map_values(
            |p: Position| spec_sell_call(p, desired_int),
        ));
    }
    while rest.len() > 0
        invariant
            0 <= done <= actions.sell_down@.len(),
            desired == plan.desired_allocation,
            desired_int == desired as int,
            desired >= 0,
            rest@ =~= actions.sell_down@.subrange(done, actions.sell_down@.len() as int),
            forall|i: int|
                0 <= i < actions.sell_down@.len() ==> ((
                #[trigger] actions.sell_down@[i]).market_value matches Some(mv) && mv
                    > plan.desired_allocation),
            sells@ == actions.sell_down@.subrange(0, done).map_values(
                |p: Position| spec_sell_call(p, desired_int),
            ),
        decreases rest@.len(),
    {
        let ghost prev = actions.sell_down@.subrange(0, done);
        let p = rest.remove(0);
        proof {
            assert(p == actions.sell_down@[done]);
            assert(actions.sell_down@.subrange(0, done + 1) =~= prev.push(p));
            assert(prev.push(p).map_values(|q: Position| spec_sell_call(q, desired_int))
                =~= prev.map_values(|q: Position| spec_sell_call(q, desired_int)).push(
                spec_sell_call(p, desired_int),
            ));
        }
        let mv = match p.market_value {
            Option::Some(v) => v,
            Option::None => {
                proof {
                    assert(false);
                }
                0
            },
        };
        let notional: u64 = (mv - desired) as u64;
        sells.push(TradeCall::Order { symbol: p.symbol, side: Side::Sell, notional });
        proof {
            done = done + 1;
        }
    }
    proof {
        assert(actions.sell_down@.subrange(0, actions.sell_down@.len() as int)
            =~= actions.sell_down@);
    }

    let mut buy_ups: Vec<TradeCall> = Vec::new();
    let mut rest = actions.buy_up;
    let ghost mut done: int = 0;
    proof {
        assert(actions.buy_up@.subrange(0, 0) =~= Seq::<Position>::empty());
        assert(buy_ups@ =~= Seq::<Position>::empty().map_values(
            |p: Position| spec_buy_up_call(p, desired_int),
        ));
    }
    while rest.len() > 0
        invariant
            0 <= done <= actions.buy_up@.len(),
            desired == plan.desired_allocation,
            desired_int == desired as int,
            desired >= 0,
            rest@ =~= actions.buy_up@.subrange(done, actions.buy_up@.len() as int),
            forall|i: int|
                0 <= i < actions.buy_up@.len() ==> ((#[trigger] actions.buy_up@[i]).market_value
                    matches Some(mv) && mv <= plan.desired_allocation),
            buy_ups@ == actions.buy_up@.subrange(0, done).map_values(
                |p: Position| spec_buy_up_call(p, desired_int),
            ),
        decreases rest@.len(),
    {
        let ghost prev = actions.buy_up@.subrange(0, done);
        let p = rest.remove(0);
        proof {
            assert(p == actions.buy_up@[done]);
            assert(actions.buy_up@.subrange(0, done + 1) =~= prev.push(p));
            assert(prev.push(p).map_values(|q: Position| spec_buy_up_call(q, desired_int))
                =~= prev.map_values(|q: Position| spec_buy_up_call(q, desired_int)).push(
                spec_buy_up_call(p, desired_int),
            ));
        }
        let mv = match p.market_value {
            Option::Some(v) => v,
            Option::None => {
                proof {
                    assert(false);
                }
                0
            },
        };
        let notional: u64 = ((desired as i128) - (mv as i128)) as u64;
        buy_ups.push(TradeCall::Order { symbol: p.symbol, side: Side::Buy, notional });
        proof {
            done = done + 1;
        }
    }
    proof {
        assert(actions.buy_up@.subrange(0, actions.buy_up@.len() as int) =~= actions.buy_up@);
    }

    let mut buy_news: Vec<TradeCall> = Vec::new();
    let mut rest = actions.buy_new;
    let ghost mut done: int = 0;
    proof {
        assert(actions.buy_new@.subrange(0, 0) =~= Seq::<AssetDescriptor>::empty());
        assert(buy_news@ =~= Seq::<AssetDescriptor>::empty().map_values(
            |a: AssetDescriptor| spec_buy_new_call(a, desired_int),
        ));
    }
    while rest.len() > 0
        invariant
            0 <= done <= actions.buy_new@.len(),
            desired == plan.desired_allocation,
            desired_int == desired as int,
            desired >= 0,
            rest@ =~= actions.buy_new@.subrange(done, actions.buy_new@.len() as int),
            buy_news@ == actions.buy_new@.subrange(0, done).map_values(
                |a: AssetDescriptor| spec_buy_new_call(a, desired_int),
            ),
        decreases rest@.len(),
    {
        let ghost prev = actions.buy_new@.subrange(0, done);
        let a = rest.remove(0);
        proof {
            assert(a == actions.buy_new@[done]);
            assert(actions.buy_new@.subrange(0, done + 1) =~= prev.push(a));
            assert(prev.push(a).map_values(|b: AssetDescriptor| spec_buy_new_call(b, desired_int))
                =~= prev.map_values(|b: AssetDescriptor| spec_buy_new_call(b, desired_int)).push(
                spec_buy_new_call(a, desired_int),
            ));
        }
        let notional: u64 = desired as u64;
        buy_news.push(TradeCall::Order { symbol: a.symbol, side: Side::Buy, notional });
        proof {
            done = done + 1;
        }
    }
    proof {
        assert(actions.buy_new@.subrange(0, actions.buy_new@.len() as int) =~= actions.buy_new@);
    }

    let ghost closes_view = closes@;
    let ghost sells_view = sells@;
    let ghost buy_ups_view = buy_ups@;
    let ghost buy_news_view = buy_news@;
    let mut stages: Vec<Vec<TradeCall>> = Vec::new();
    stages.push(closes);
    stages.push(sells);
    stages.push(buy_ups);
    stages.push(buy_news);
    proof {
        assert(stage_views(stages@).len() == 4);
        assert(stage_views(stages@)[0] == closes_view);
        assert(stage_views(stages@)[1] == sells_view);
        assert(stage_views(stages@)[2] == buy_ups_view);
        assert(stage_views(stages@)[3] == buy_news_view);
    }
    stages
}

/// Everything one rebalancing run decides before any call is made.
#[derive(Clone, Debug, PartialEq, Eq)]
pub struct RebalancePlan {
    /// The money figures the run was derived from.
    pub allocation: AllocationPlan,
    /// The four submission stages, in pipeline order.
    pub stages: Vec<Vec<TradeCall>>,
}

/// Exactly what a successful run derivation promises, from the raw
/// snapshot: the allocation obeys the calculator's rule, and the stages are
/// the classified, mapped action sets.
pub open spec fn rebalance_plan_obeys(
    rp: RebalancePlan,
    equity: int,
    positions: Seq<Position>,
    targets: Seq<AssetDescriptor>,
) -> bool {
    &&& plan_obeys(rp.allocation, equity, targets.len() as int)
    &&& exists|acts: ActionSets|
        #![auto]
        action_sets_obey(acts, positions, targets, rp.allocation) && stages_obey(
            stage_views(rp.stages@),
            acts,
            rp.allocation,
        )
}

/// Derives one whole rebalancing run from a snapshot of account equity,
/// the open positions, and the normalized target set: the allocation plan,
/// the classification, and the four staged lists of trade calls. Nothing
/// here performs a call; an empty target list or non-positive equity is
/// fatal and reported before any order could be built.
pub fn plan_rebalance(equity: i64, positions: Vec<Position>, targets: TargetSet) -> (r: Result<
    RebalancePlan,
    PlanError,
>)
    ensures
        r matches Ok(rp) <==> (targets.assets@.len() > 0 && equity > 0),
        r matches Ok(rp) ==> rebalance_plan_obeys(rp, equity as int, positions@, targets.assets@),
        targets.assets@.len() == 0 ==> r == Err::<RebalancePlan, PlanError>(
            PlanError::EmptyTargetList,
        ),
        targets.assets@.len() > 0 && equity <= 0 ==> r == Err::<RebalancePlan, PlanError>(
            PlanError::NonPositiveEquity,
        ),
{
    let n_targets = targets.len();
    let allocation = match compute_allocation_plan(equity, n_targets) {
        Ok(plan) => plan,
        Err(e) => {
            return Err(e);
        },
    };
    let ghost positions_view = positions@;
    let ghost targets_view = targets.assets@;
    let actions = classify(positions, targets, allocation);
    proof {
        lemma_classified_actions_feasible(
            actions,
            positions_view,
            targets_view,
            allocation,
        );
    }
    let ghost actions_ghost = actions;
    let stages = build_trade_stages(actions, allocation);
    proof {
        assert(action_sets_obey(actions_ghost, positions_view, targets_view, allocation)
            && stages_obey(stage_views(stages@), actions_ghost, allocation));
    }
    Ok(RebalancePlan { allocation, stages })
}

} // verus!
