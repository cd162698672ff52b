use rebalancer::{compute_allocation_plan, PlanError};

#[test]
fn plan_from_round_equity() {
    let plan = compute_allocation_plan(10000, 2).unwrap();
    assert_eq!(plan.buying_power, 9800);
    assert_eq!(plan.desired_allocation, 4900);
    assert_eq!(plan.rebalance_threshold, 10);
}

#[test]
fn truncating_division_remainder_stays_bounded() {
    let plan = compute_allocation_plan(10001, 3).unwrap();
    assert_eq!(plan.buying_power, 9800);
    assert_eq!(plan.desired_allocation, 3266);
    assert_eq!(plan.rebalance_threshold, 10);
    let n: i64 = 3;
    assert!(plan.desired_allocation * n <= plan.buying_power);
    assert!(plan.buying_power < plan.desired_allocation * n + n);
}

#[test]
fn threshold_rounds_half_away_from_zero() {
    // buying power 490: 490 * 0.001 = 0.49 rounds to 0.
    let plan = compute_allocation_plan(500, 1).unwrap();
    assert_eq!(plan.buying_power, 490);
    assert_eq!(plan.rebalance_threshold, 0);
    // buying power 1470: 1.47 rounds to 1.
    let plan = compute_allocation_plan(1500, 1).unwrap();
    assert_eq!(plan.buying_power, 1470);
    assert_eq!(plan.rebalance_threshold, 1);
    // buying power 2499: 2.499 rounds to 2; 2548: 2.548 rounds to 3.
    let plan = compute_allocation_plan(2550, 1).unwrap();
    assert_eq!(plan.buying_power, 2499);
    assert_eq!(plan.rebalance_threshold, 2);
    let plan = compute_allocation_plan(2600, 1).unwrap();
    assert_eq!(plan.buying_power, 2548);
    assert_eq!(plan.rebalance_threshold, 3);
    // buying power 2500: exactly 2.5 rounds away from zero, to 3.
    let plan = compute_allocation_plan(2552, 1).unwrap();
    assert_eq!(plan.buying_power, 2500);
    assert_eq!(plan.rebalance_threshold, 3);
}

#[test]
fn empty_target_list_is_fatal() {
    assert_eq!(
        compute_allocation_plan(10000, 0),
        Err(PlanError::EmptyTargetList)
    );
}

#[test]
fn non_positive_equity_is_fatal() {
    assert_eq!(
        compute_allocation_plan(0, 2),
        Err(PlanError::NonPositiveEquity)
    );
    assert_eq!(
        compute_allocation_plan(-5, 2),
        Err(PlanError::NonPositiveEquity)
    );
}
