use rebalancer::{
    classify, AllocationPlan, AssetDescriptor, Position, TargetSet,
};

fn asset(id: u128, symbol: &str) -> AssetDescriptor {
    AssetDescriptor {
        id,
        symbol: symbol.to_string(),
        tradable: true,
        fractionable: true,
    }
}

fn position(asset_id: u128, symbol: &str, market_value: Option<i64>) -> Position {
    Position {
        asset_id,
        symbol: symbol.to_string(),
        market_value,
    }
}

fn plan() -> AllocationPlan {
    AllocationPlan {
        buying_power: 9800,
        desired_allocation: 4900,
        rebalance_threshold: 10,
    }
}

fn targets_xy() -> TargetSet {
    TargetSet::from_lookups(vec![Some(asset(1, "X")), Some(asset(2, "Y"))])
}

#[test]
fn untargeted_position_is_liquidated_regardless_of_value() {
    let positions = vec![position(9, "Z", Some(123456))];
    let r = classify(positions, targets_xy(), plan());
    assert_eq!(r.liquidate.len(), 1);
    assert_eq!(r.liquidate[0].symbol, "Z");
    assert!(r.sell_down.is_empty());
    assert!(r.buy_up.is_empty());

    let positions = vec![position(9, "Z", None)];
    let r = classify(positions, targets_xy(), plan());
    assert_eq!(r.liquidate.len(), 1);
    assert_eq!(r.liquidate[0].symbol, "Z");
}

#[test]
fn targeted_position_above_band_sells_down() {
    let positions = vec![position(1, "X", Some(6000))];
    let r = classify(positions, targets_xy(), plan());
    assert!(r.liquidate.is_empty());
    assert_eq!(r.sell_down.len(), 1);
    assert_eq!(r.sell_down[0].symbol, "X");
    assert!(r.buy_up.is_empty());
    // X is held, so only Y is bought fresh.
    assert_eq!(r.buy_new.len(), 1);
    assert_eq!(r.buy_new[0].symbol, "Y");
}

#[test]
fn targeted_position_below_band_buys_up() {
    let positions = vec![position(1, "X", Some(3000))];
    let r = classify(positions, targets_xy(), plan());
    assert!(r.sell_down.is_empty());
    assert_eq!(r.buy_up.len(), 1);
    assert_eq!(r.buy_up[0].symbol, "X");
}

#[test]
fn within_band_position_rests() {
    // Deviation 5 < threshold 10: no action in any set.
    let positions = vec![position(1, "X", Some(4905))];
    let r = classify(positions, targets_xy(), plan());
    assert!(r.liquidate.is_empty());
    assert!(r.sell_down.is_empty());
    assert!(r.buy_up.is_empty());
    assert_eq!(r.buy_new.len(), 1);
    assert_eq!(r.buy_new[0].symbol, "Y");
}

#[test]
fn deviation_exactly_at_threshold_acts() {
    // 4910 - 4900 == 10 == threshold: the tie goes to action, above sells.
    let positions = vec![position(1, "X", Some(4910))];
    let r = classify(positions, targets_xy(), plan());
    assert_eq!(r.sell_down.len(), 1);
    assert!(r.buy_up.is_empty());
    // 4900 - 4890 == 10 == threshold: below buys up.
    let positions = vec![position(1, "X", Some(4890))];
    let r = classify(positions, targets_xy(), plan());
    assert!(r.sell_down.is_empty());
    assert_eq!(r.buy_up.len(), 1);
}

#[test]
fn unknown_market_value_is_skipped() {
    let positions = vec![position(1, "X", None)];
    let r = classify(positions, targets_xy(), plan());
    assert!(r.liquidate.is_empty());
    assert!(r.sell_down.is_empty());
    assert!(r.buy_up.is_empty());
    // The position still counts as held, so X is not bought fresh.
    assert_eq!(r.buy_new.len(), 1);
    assert_eq!(r.buy_new[0].symbol, "Y");
}

#[test]
fn zero_threshold_leaves_no_tolerance_band() {
    // With a rebalance threshold of zero even a perfectly balanced
    // position acts: deviation 0 is not strictly below 0, and a value
    // equal to the desired allocation falls on the buy side.
    let tight = AllocationPlan {
        buying_power: 490,
        desired_allocation: 490,
        rebalance_threshold: 0,
    };
    let targets = TargetSet::from_lookups(vec![Some(asset(1, "X"))]);
    let positions = vec![position(1, "X", Some(490))];
    let r = classify(positions, targets, tight);
    assert!(r.sell_down.is_empty());
    assert_eq!(r.buy_up.len(), 1);
    assert_eq!(r.buy_up[0].symbol, "X");
}

#[test]
fn classifier_is_idempotent_on_identical_snapshots() {
    let positions = vec![
        position(1, "X", Some(6000)),
        position(9, "Z", Some(50)),
        position(2, "Y", Some(4899)),
    ];
    let first = classify(positions.clone(), targets_xy(), plan());
    let second = classify(positions, targets_xy(), plan());
    assert_eq!(first, second);
}

#[test]
fn each_position_lands_in_at_most_one_set() {
    let positions = vec![
        position(1, "X", Some(6000)),
        position(2, "Y", Some(3000)),
        position(9, "Z", Some(4900)),
    ];
    let r = classify(positions, targets_xy(), plan());
    let mut seen: Vec<u128> = Vec::new();
    for p in r.liquidate.iter().chain(&r.sell_down).chain(&r.buy_up) {
        assert!(!seen.contains(&p.asset_id));
        seen.push(p.asset_id);
    }
    for a in &r.buy_new {
        assert!(!seen.contains(&a.id));
        seen.push(a.id);
    }
    assert_eq!(seen.len(), 3);
}
