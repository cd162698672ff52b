use rebalancer::{
    plan_rebalance, AssetDescriptor, ExecutorStep, PlanError, Position, Side, StagedExecutor,
    TargetSet, TradeCall,
};

fn asset(id: u128, symbol: &str) -> AssetDescriptor {
    AssetDescriptor {
        id,
        symbol: symbol.to_string(),
        tradable: true,
        fractionable: true,
    }
}

fn position(asset_id: u128, symbol: &str, market_value: Option<i64>) -> Position {
    Position {
        asset_id,
        symbol: symbol.to_string(),
        market_value,
    }
}

fn targets_xy() -> TargetSet {
    TargetSet::from_lookups(vec![Some(asset(1, "X")), Some(asset(2, "Y"))])
}

fn buy(symbol: &str, notional: u64) -> TradeCall {
    TradeCall::Order {
        symbol: symbol.to_string(),
        side: Side::Buy,
        notional,
    }
}

fn sell(symbol: &str, notional: u64) -> TradeCall {
    TradeCall::Order {
        symbol: symbol.to_string(),
        side: Side::Sell,
        notional,
    }
}

#[test]
fn fresh_account_buys_every_target() {
    let rp = plan_rebalance(10000, vec![], targets_xy()).unwrap();
    assert_eq!(rp.allocation.buying_power, 9800);
    assert_eq!(rp.allocation.desired_allocation, 4900);
    assert_eq!(rp.allocation.rebalance_threshold, 10);
    assert_eq!(rp.stages.len(), 4);
    assert!(rp.stages[0].is_empty());
    assert!(rp.stages[1].is_empty());
    assert!(rp.stages[2].is_empty());
    assert_eq!(rp.stages[3], vec![buy("X", 4900), buy("Y", 4900)]);
}

#[test]
fn overweight_holding_sells_its_excess() {
    let positions = vec![position(1, "X", Some(6000))];
    let rp = plan_rebalance(10000, positions, targets_xy()).unwrap();
    // Deviation 1100 at threshold 10: sell the 1100 excess.
    assert!(rp.stages[0].is_empty());
    assert_eq!(rp.stages[1], vec![sell("X", 1100)]);
    assert!(rp.stages[2].is_empty());
    assert_eq!(rp.stages[3], vec![buy("Y", 4900)]);
}

#[test]
fn underweight_holding_buys_its_shortfall() {
    let positions = vec![position(1, "X", Some(3000))];
    let rp = plan_rebalance(10000, positions, targets_xy()).unwrap();
    assert!(rp.stages[1].is_empty());
    assert_eq!(rp.stages[2], vec![buy("X", 1900)]);
}

#[test]
fn untargeted_holding_is_closed() {
    let positions = vec![position(9, "Z", Some(777))];
    let rp = plan_rebalance(10000, positions, targets_xy()).unwrap();
    assert_eq!(
        rp.stages[0],
        vec![TradeCall::Close {
            symbol: "Z".to_string()
        }]
    );
    assert!(rp.stages[1].is_empty());
    assert!(rp.stages[2].is_empty());
}

#[test]
fn failed_lookups_shrink_the_target_set() {
    // Five raw symbols, two lookups fail: three targets remain.
    let lookups = vec![
        Some(asset(1, "A")),
        None,
        Some(asset(2, "B")),
        None,
        Some(asset(3, "C")),
    ];
    let targets = TargetSet::from_lookups(lookups);
    assert_eq!(targets.assets.len(), 3);
    let symbols: Vec<&str> = targets.assets.iter().map(|a| a.symbol.as_str()).collect();
    assert_eq!(symbols, vec!["A", "B", "C"]);
}

#[test]
fn ineligible_assets_are_dropped() {
    let mut not_tradable = asset(1, "A");
    not_tradable.tradable = false;
    let mut not_fractionable = asset(2, "B");
    not_fractionable.fractionable = false;
    let lookups = vec![
        Some(not_tradable),
        Some(not_fractionable),
        Some(asset(3, "C")),
    ];
    let targets = TargetSet::from_lookups(lookups);
    assert_eq!(targets.assets.len(), 1);
    assert_eq!(targets.assets[0].symbol, "C");
}

#[test]
fn duplicate_asset_ids_keep_the_first_descriptor() {
    let lookups = vec![
        Some(asset(1, "A")),
        Some(asset(1, "A-again")),
        Some(asset(2, "B")),
    ];
    let targets = TargetSet::from_lookups(lookups);
    assert_eq!(targets.assets.len(), 2);
    assert_eq!(targets.assets[0].symbol, "A");
    assert_eq!(targets.assets[1].symbol, "B");
}

#[test]
fn fatal_preconditions_stop_the_run_before_any_order() {
    let empty = TargetSet::from_lookups(vec![None, None]);
    assert_eq!(
        plan_rebalance(10000, vec![], empty),
        Err(PlanError::EmptyTargetList)
    );
    assert_eq!(
        plan_rebalance(0, vec![], targets_xy()),
        Err(PlanError::NonPositiveEquity)
    );
}

#[test]
fn negative_market_value_buys_the_whole_shortfall() {
    let positions = vec![position(1, "X", Some(-100))];
    let rp = plan_rebalance(10000, positions, targets_xy()).unwrap();
    assert_eq!(rp.stages[2], vec![buy("X", 5000)]);
}

#[test]
fn pool_never_exceeds_its_bound_and_barrier_holds() {
    // Five calls in the first stage, three in the second, at most two in
    // flight: the second stage must not start until all five resolved.
    let mut ex = StagedExecutor::new(vec![5, 3], 2);

    assert_eq!(ex.poll(), ExecutorStep::Start { stage: 0, index: 0 });
    assert_eq!(ex.poll(), ExecutorStep::Start { stage: 0, index: 1 });
    // Pool full.
    assert_eq!(ex.poll(), ExecutorStep::Wait);
    ex.on_complete(true);
    assert_eq!(ex.poll(), ExecutorStep::Start { stage: 0, index: 2 });
    assert_eq!(ex.poll(), ExecutorStep::Wait);
    ex.on_complete(false);
    assert_eq!(ex.poll(), ExecutorStep::Start { stage: 0, index: 3 });
    assert_eq!(ex.poll(), ExecutorStep::Wait);
    ex.on_complete(true);
    assert_eq!(ex.poll(), ExecutorStep::Start { stage: 0, index: 4 });
    // Everything started; two still in flight, so the barrier holds.
    assert_eq!(ex.poll(), ExecutorStep::Wait);
    ex.on_complete(true);
    assert_eq!(ex.poll(), ExecutorStep::Wait);
    ex.on_complete(true);
    // All five of the first stage resolved: only now may stage 1 start.
    assert_eq!(ex.poll(), ExecutorStep::Start { stage: 1, index: 0 });
    assert_eq!(ex.stage_outcomes(0), &vec![true, false, true, true, true]);

    assert_eq!(ex.poll(), ExecutorStep::Start { stage: 1, index: 1 });
    assert_eq!(ex.poll(), ExecutorStep::Wait);
    ex.on_complete(true);
    assert_eq!(ex.poll(), ExecutorStep::Start { stage: 1, index: 2 });
    ex.on_complete(true);
    ex.on_complete(false);
    assert!(ex.finished());
    assert_eq!(ex.poll(), ExecutorStep::Done);
    assert_eq!(ex.stage_outcomes(1), &vec![true, true, false]);
}

#[test]
fn empty_stages_are_skipped() {
    let mut ex = StagedExecutor::new(vec![0, 0, 2, 0], 5);
    assert_eq!(ex.poll(), ExecutorStep::Start { stage: 2, index: 0 });
    assert_eq!(ex.poll(), ExecutorStep::Start { stage: 2, index: 1 });
    assert_eq!(ex.poll(), ExecutorStep::Wait);
    ex.on_complete(true);
    ex.on_complete(true);
    assert!(ex.finished());
    assert_eq!(ex.poll(), ExecutorStep::Done);
}
