//! The plain data the engine works over: asset descriptors as the brokerage
//! reports them, and read-only snapshots of open positions.

use vstd::prelude::*;

verus! {

/// One asset as the brokerage metadata describes it.
///
/// `id` is the brokerage's opaque stable identifier, carried here as its
/// 128-bit value. The two flags gate eligibility: only assets that are both
/// tradable and orderable in fractional notional amounts may be targeted.
#[derive(Clone, Debug, PartialEq, Eq)]
pub struct AssetDescriptor {
    pub id: u128,
    pub symbol: String,
    pub tradable: bool,
    pub fractionable: bool,
}

/// Whether an asset may be a rebalancing target at all.
pub open spec fn spec_eligible(a: AssetDescriptor) -> bool {
    a.tradable && a.fractionable
}

impl AssetDescriptor {
    /// Executable mirror of `spec_eligible`.
    pub fn eligible(&self) -> (r: bool)
        ensures
            r == spec_eligible(*self),
    {
        self.tradable && self.fractionable
    }
}

/// A currently held open position: a point-in-time, read-only snapshot.
///
/// `market_value` is in whole currency units; `None` when the brokerage did
/// not report a value, in which case the position cannot be classified and
/// is skipped.
#[derive(Clone, Debug, PartialEq, Eq)]
pub struct Position {
    pub asset_id: u128,
    pub symbol: String,
    pub market_value: Option<i64>,
}

} // verus!
