//! A portfolio rebalancing engine: it compares current holdings against a
//! target buy-list, partitions them into disjoint action sets, computes the
//! notional amount of each resulting order, and schedules submission in
//! staged, bounded-concurrency rounds.

pub mod allocation;
pub mod classifier;
pub mod csv_handler;
pub mod executor;
pub mod model;
pub mod orders;
pub mod target;

pub use allocation::AllocationPlan;
pub use allocation::PlanError;
pub use allocation::compute_allocation_plan;
pub use classifier::ActionSets;
pub use classifier::Classification;
pub use classifier::classify;
pub use csv_handler::CsvError;
pub use csv_handler::Stock;
pub use csv_handler::ZacksBuys;
pub use csv_handler::parse_csv;
pub use csv_handler::stocks_from_rows;
pub use executor::ExecutorStep;
pub use executor::StagedExecutor;
pub use model::AssetDescriptor;
pub use model::Position;
pub use orders::RebalancePlan;
pub use orders::Side;
pub use orders::TradeCall;
pub use orders::build_trade_stages;
pub use orders::plan_rebalance;
pub use target::TargetSet;
