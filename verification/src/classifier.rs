//! Partitions the current positions and the target set into the four
//! disjoint action sets of a rebalancing run.
//!
//! A held position whose asset is not targeted is liquidated. A held,
//! targeted position with a known market value acts when its deviation from
//! the desired allocation reaches the rebalance threshold — a deviation
//! exactly at the threshold acts — and the side depends on whether it sits
//! above or below the desired allocation. A position without a known market
//! value is skipped. A targeted asset that is not held is bought fresh.

use vstd::prelude::*;
use vstd::math::abs;
use crate::allocation::AllocationPlan;
use crate::model::AssetDescriptor;
use crate::model::Position;
use crate::target::TargetSet;
use crate::target::spec_ids;

verus! {

/// The asset ids of the currently held positions, in order.
pub open spec fn spec_held_ids(positions: Seq<Position>) -> Seq<u128> {
    positions.map_values(|p: Position| p.asset_id)
}

/// Where a single position lands.
pub enum Classification {
    /// Held but not targeted: close the whole position.
    Liquidate,
    /// Held, targeted, and too far above the desired allocation.
    SellDown,
    /// Held, targeted, and too far below the desired allocation.
    BuyUp,
    /// Held, targeted, and within the tolerance band.
    NoAction,
    /// Held and targeted, but the market value is unknown: skipped.
    Unclassified,
}

/// The classification rule for one position, given the target ids and the
/// allocation plan. The tolerance band is inclusive below and exclusive
/// above: a deviation exactly at the threshold acts.
pub open spec fn spec_classification(
    p: Position,
    target_ids: Seq<u128>,
    plan: AllocationPlan,
) -> Classification {
    if !target_ids.contains(p.asset_id) {
        Classification::Liquidate
    } else {
        match p.market_value {
            Option::Some(mv) => {
                if abs(mv - plan.desired_allocation) < plan.rebalance_threshold {
                    Classification::NoAction
                } else if mv > plan.desired_allocation {
                    Classification::SellDown
                } else {
                    Classification::BuyUp
                }
            },
            Option::None => Classification::Unclassified,
        }
    }
}

/// The predicate a position must satisfy to land in `liquidate`.
pub open spec fn liquidate_pred(target_ids: Seq<u128>, plan: AllocationPlan) -> spec_fn(
    Position,
) -> bool {
    |p: Position| spec_classification(p, target_ids, plan) is Liquidate
}

/// The predicate a position must satisfy to land in `sell_down`.
pub open spec fn sell_down_pred(target_ids: Seq<u128>, plan: AllocationPlan) -> spec_fn(
    Position,
) -> bool {
    |p: Position| spec_classification(p, target_ids, plan) is SellDown
}

/// The predicate a position must satisfy to land in `buy_up`.
pub open spec fn buy_up_pred(target_ids: Seq<u128>, plan: AllocationPlan) -> spec_fn(
    Position,
) -> bool {
    |p: Position| spec_classification(p, target_ids, plan) is BuyUp
}

/// The predicate an asset must satisfy to land in `buy_new`: targeted but
/// not currently held.
pub open spec fn buy_new_pred(held_ids: Seq<u128>) -> spec_fn(AssetDescriptor) -> bool {
    |a: AssetDescriptor| !held_ids.contains(a.id)
}

/// The four disjoint action sets of one run, in the order the execution
/// pipeline submits them.
#[derive(Clone, Debug, PartialEq, Eq)]
pub struct ActionSets {
    /// Held positions whose asset is no longer targeted: closed entirely.
    pub liquidate: Vec<Position>,
    /// Held, targeted positions above the band: sold down to the target.
    pub sell_down: Vec<Position>,
    /// Held, targeted positions below the band: bought up to the target.
    pub buy_up: Vec<Position>,
    /// Targeted assets not currently held: bought at the full allocation.
    pub buy_new: Vec<AssetDescriptor>,
}

/// Exactly what the classifier promises: each output is the corresponding
/// filter of its input, in input order.
pub open spec fn action_sets_obey(
    r: ActionSets,
    positions: Seq<Position>,
    targets: Seq<AssetDescriptor>,
    plan: AllocationPlan,
) -> bool {
    let tids = spec_ids(targets);
    &&& r.liquidate@ == positions.filter(liquidate_pred(tids, plan))
    &&& r.sell_down@ == positions.filter(sell_down_pred(tids, plan))
    &&& r.buy_up@ == positions.filter(buy_up_pred(tids, plan))
    &&& r.buy_new@ == targets.filter(buy_new_pred(spec_held_ids(positions)))
}

/// Filtering a one-longer prefix keeps the old result and appends the new
/// element exactly when it satisfies the predicate.
proof fn lemma_filter_push<A>(s: Seq<A>, pred: spec_fn(A) -> bool, x: A)
    ensures
        pred(x) ==> s.push(x).filter(pred) == s.filter(pred).push(x),
        !pred(x) ==> s.push(x).filter(pred) == s.filter(pred),
{
    reveal(Seq::filter);
    assert(s.push(x).drop_last() =~= s);
    assert(s.push(x).last() == x);
}

/// Whether the vector holds the given id.
fn id_vec_contains(ids: &Vec<u128>, id: u128) -> (r: bool)
    ensures
        r == ids@.contains(id),
{
    let mut k: usize = 0;
    while k < ids.len()
        invariant
            0 <= k <= ids@.len(),
            forall|i: int| 0 <= i < k ==> #[trigger] ids@[i] != id,
        decreases ids@.len() - k,
    {
        if ids[k] == id {
            return true;
        }
        k += 1;
    }
    false
}

/// Classifies every current position against the target set and the plan,
/// and every target against the held positions. Pure: the outputs are a
/// function of the inputs alone, each one the matching filter of its input
/// sequence, in input order.
pub fn classify(positions: Vec<Position>, targets: TargetSet, plan: AllocationPlan) -> (r:
    ActionSets)
    ensures
        action_sets_obey(r, positions@, targets.assets@, plan),
{
    let ghost tids = spec_ids(targets.assets@);
    let ghost held = spec_held_ids(positions@);

    // Plain copies of the two id columns, for membership tests.
    let mut target_ids: Vec<u128> = Vec::new();
    let mut k: usize = 0;
    while k < targets.assets.len()
        invariant
            0 <= k <= targets.assets@.len(),
            target_ids@.len() == k,
            forall|i: int| 0 <= i < k ==> target_ids@[i] == #[trigger] targets.assets@[i].id,
        decreases targets.assets@.len() - k,
    {
        target_ids.push(targets.assets[k].id);
        k += 1;
    }
    proof {
        assert(target_ids@ =~= tids);
    }

    let mut held_ids: Vec<u128> = Vec::new();
    let mut k: usize = 0;
    while k < positions.len()
        invariant
            0 <= k <= positions@.len(),
            held_ids@.len() == k,
            forall|i: int| 0 <= i < k ==> held_ids@[i] == #[trigger] positions@[i].asset_id,
        decreases positions@.len() - k,
    {
        held_ids.push(positions[k].asset_id);
        k += 1;
    }
    proof {
        assert(held_ids@ =~= held);
    }

    let mut liquidate: Vec<Position> = Vec::new();
    let mut sell_down: Vec<Position> = Vec::new();
    let mut buy_up: Vec<Position> = Vec::new();

    let mut rest = positions;
    let ghost mut done: int = 0;
    proof {
        assert(positions@.subrange(0, 0) =~= Seq::<Position>::empty());
        lemma_filter_empty(liquidate_pred(tids, plan));
        lemma_filter_empty(sell_down_pred(tids, plan));
        lemma_filter_empty(buy_up_pred(tids, plan));
    }
    while rest.len() > 0
        invariant
            0 <= done <= positions@.len(),
            target_ids@ == tids,
            rest@ =~= positions@.subrange(done, positions@.len() as int),
            liquidate@ == positions@.subrange(0, done).filter(liquidate_pred(tids, plan)),
            sell_down@ == positions@.subrange(0, done).filter(sell_down_pred(tids, plan)),
            buy_up@ == positions@.subrange(0, done).filter(buy_up_pred(tids, plan)),
        decreases rest@.len(),
    {
        let ghost prev = positions@.subrange(0, done);
        let p = rest.remove(0);
        proof {
            assert(p == positions@[done]);
            assert(positions@.subrange(0, done + 1) =~= prev.push(p));
            lemma_filter_push(prev, liquidate_pred(tids, plan), p);
            lemma_filter_push(prev, sell_down_pred(tids, plan), p);
            lemma_filter_push(prev, buy_up_pred(tids, plan), p);
        }
        let targeted = id_vec_contains(&target_ids, p.asset_id);
        if !targeted {
            assert(spec_classification(p, tids, plan) is Liquidate);
            liquidate.push(p);
        } else {
            match p.market_value {
                Option::Some(mv) => {
                    let diff: i128 = mv as i128 - plan.desired_allocation as i128;
                    let deviation: i128 = if diff < 0 {
                        -diff
                    } else {
                        diff
                    };
                    assert(deviation == abs(mv - plan.desired_allocation));
                    if deviation < plan.rebalance_threshold as i128 {
                        assert(spec_classification(p, tids, plan) is NoAction);
                    } else if mv > plan.desired_allocation {
                        assert(spec_classification(p, tids, plan) is SellDown);
                        sell_down.push(p);
                    } else {
                        assert(spec_classification(p, tids, plan) is BuyUp);
                        buy_up.push(p);
                    }
                },
                Option::None => {
                    assert(spec_classification(p, tids, plan) is Unclassified);
                },
            }
        }
        proof {
            done = done + 1;
        }
    }
    proof {
        assert(positions@.subrange(0, positions@.len() as int) =~= positions@);
    }

    let mut buy_new: Vec<AssetDescriptor> = Vec::new();
    let mut trest = targets.assets;
    let ghost mut tdone: int = 0;
    proof {
        assert(targets.assets@.subrange(0, 0) =~= Seq::<AssetDescriptor>::empty());
        lemma_filter_empty(buy_new_pred(held));
    }
    while trest.len() > 0
        invariant
            0 <= tdone <= targets.assets@.len(),
            trest@ =~= targets.assets@.subrange(tdone, targets.assets@.len() as int),
            buy_new@ == targets.assets@.subrange(0, tdone).filter(buy_new_pred(held)),
            held_ids@ =~= held,
        decreases trest@.len(),
    {
        let ghost prev = targets.assets@.subrange(0, tdone);
        let a = trest.remove(0);
        proof {
            assert(a == targets.assets@[tdone]);
            assert(targets.assets@.subrange(0, tdone + 1) =~= prev.push(a));
            lemma_filter_push(prev, buy_new_pred(held), a);
        }
        let is_held = id_vec_contains(&held_ids, a.id);
        if !is_held {
            buy_new.push(a);
        }
        proof {
            tdone = tdone + 1;
        }
    }
    proof {
        assert(targets.assets@.subrange(0, targets.assets@.len() as int) =~= targets.assets@);
    }

    ActionSets { liquidate, sell_down, buy_up, buy_new }
}

/// Filtering the empty sequence yields the empty sequence.
proof fn lemma_filter_empty<A>(pred: spec_fn(A) -> bool)
    ensures
        Seq::<A>::empty().filter(pred) == Seq::<A>::empty(),
{
    reveal(Seq::filter);
}

/// A held, targeted position with a known market value is assigned exactly
/// one classification: within the band it rests, at or beyond the band it
/// sells down when above the desired allocation and buys up otherwise.
pub proof fn lemma_position_classified_once(
    p: Position,
    target_ids: Seq<u128>,
    plan: AllocationPlan,
)
    requires
        target_ids.contains(p.asset_id),
        p.market_value is Some,
    ensures
        ({
            let c = spec_classification(p, target_ids, plan);
            let mv = p.market_value->0;
            &&& (c is NoAction || c is SellDown || c is BuyUp)
            &&& c is NoAction <==> abs(mv - plan.desired_allocation) < plan.rebalance_threshold
            &&& c is SellDown <==> (abs(mv - plan.desired_allocation) >= plan.rebalance_threshold
                && mv > plan.desired_allocation)
            &&& c is BuyUp <==> (abs(mv - plan.desired_allocation) >= plan.rebalance_threshold
                && mv <= plan.desired_allocation)
        }),
{
}

/// A deviation exactly at the rebalance threshold acts: the tie goes to a
/// sell-down or a buy-up, never to rest.
pub proof fn lemma_threshold_tie_acts(p: Position, target_ids: Seq<u128>, plan: AllocationPlan)
    requires
        target_ids.contains(p.asset_id),
        p.market_value matches Some(mv) && abs(mv - plan.desired_allocation)
            == plan.rebalance_threshold,
    ensures
        spec_classification(p, target_ids, plan) is SellDown || spec_classification(
            p,
            target_ids,
            plan,
        ) is BuyUp,
{
}

/// No position lands in two action sets.
pub proof fn lemma_action_sets_disjoint(
    r: ActionSets,
    positions: Seq<Position>,
    targets: Seq<AssetDescriptor>,
    plan: AllocationPlan,
)
    requires
        action_sets_obey(r, positions, targets, plan),
    ensures
        forall|p: Position| !(r.liquidate@.contains(p) && r.sell_down@.contains(p)),
        forall|p: Position| !(r.liquidate@.contains(p) && r.buy_up@.contains(p)),
        forall|p: Position| !(r.sell_down@.contains(p) && r.buy_up@.contains(p)),
{
    let tids = spec_ids(targets);
    assert forall|p: Position| !(#[trigger] r.liquidate@.contains(p) && r.sell_down@.contains(p))
        && !(r.liquidate@.contains(p) && r.buy_up@.contains(p)) && !(r.sell_down@.contains(p)
        && r.buy_up@.contains(p)) by {
        if r.liquidate@.contains(p) {
            let i = choose|i: int| 0 <= i < r.liquidate@.len() && r.liquidate@[i] == p;
            positions.lemma_filter_pred(liquidate_pred(tids, plan), i);
        }
        if r.sell_down@.contains(p) {
            let i = choose|i: int| 0 <= i < r.sell_down@.len() && r.sell_down@[i] == p;
            positions.lemma_filter_pred(sell_down_pred(tids, plan), i);
        }
        if r.buy_up@.contains(p) {
            let i = choose|i: int| 0 <= i < r.buy_up@.len() && r.buy_up@[i] == p;
            positions.lemma_filter_pred(buy_up_pred(tids, plan), i);
        }
    }
}

/// No relevant item is dropped: every position lands in the set its
/// classification names, and every targeted asset that is not held is
/// bought fresh.
pub proof fn lemma_action_sets_exhaustive(
    r: ActionSets,
    positions: Seq<Position>,
    targets: Seq<AssetDescriptor>,
    plan: AllocationPlan,
    i: int,
)
    requires
        action_sets_obey(r, positions, targets, plan),
    ensures
        0 <= i < positions.len() ==> {
            let c = spec_classification(positions[i], spec_ids(targets), plan);
            &&& (c is Liquidate ==> r.liquidate@.contains(positions[i]))
            &&& (c is SellDown ==> r.sell_down@.contains(positions[i]))
            &&& (c is BuyUp ==> r.buy_up@.contains(positions[i]))
        },
        0 <= i < targets.len() && !spec_held_ids(positions).contains(targets[i].id)
            ==> r.buy_new@.contains(targets[i]),
{
    let tids = spec_ids(targets);
    if 0 <= i < positions.len() {
        let c = spec_classification(positions[i], tids, plan);
        if c is Liquidate {
            positions.lemma_filter_contains(liquidate_pred(tids, plan), i);
        }
        if c is SellDown {
            positions.lemma_filter_contains(sell_down_pred(tids, plan), i);
        }
        if c is BuyUp {
            positions.lemma_filter_contains(buy_up_pred(tids, plan), i);
        }
    }
    if 0 <= i < targets.len() && !spec_held_ids(positions).contains(targets[i].id) {
        targets.lemma_filter_contains(buy_new_pred(spec_held_ids(positions)), i);
    }
}

/// The classifier is a pure function of its inputs: two runs over the same
/// snapshot yield the same action sets.
pub proof fn lemma_classifier_idempotent(
    r1: ActionSets,
    r2: ActionSets,
    positions: Seq<Position>,
    targets: Seq<AssetDescriptor>,
    plan: AllocationPlan,
)
    requires
        action_sets_obey(r1, positions, targets, plan),
        action_sets_obey(r2, positions, targets, plan),
    ensures
        r1.liquidate@ == r2.liquidate@,
        r1.sell_down@ == r2.sell_down@,
        r1.buy_up@ == r2.buy_up@,
        r1.buy_new@ == r2.buy_new@,
{
}

} // verus!
