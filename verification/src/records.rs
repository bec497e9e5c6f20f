//! The domain records that flow through the pipeline.
//!
//! Costs are carried as an exact count of hundredths of the currency unit
//! in a signed 64-bit integer, so aggregation is exact and deterministic;
//! a negative cost represents a refund.

use vstd::prelude::*;

verus! {

/// One purchase event, immutable once constructed; handed to the pipeline
/// by the ingestion collaborator and consumed exactly once.
#[derive(Clone, Copy, Debug, PartialEq, Eq, Structural)]
pub struct PurchaseRecord {
    pub bike_id: u32,
    /// Cost of the purchase in hundredths of the currency unit.
    pub cost_hundredths: i64,
}

/// The running aggregate: how many purchases have been folded since process
/// start and their exact total cost. Both fields never decrease over the
/// lifetime of a pipeline process.
#[derive(Clone, Copy, Debug, PartialEq, Eq, Structural)]
pub struct AggregateSnapshot {
    pub bike_count: u32,
    /// Total cost of all folded purchases, in hundredths of the currency
    /// unit.
    pub total_cost_hundredths: i64,
}

impl PurchaseRecord {
    /// Builds the record that a submitted purchase request turns into at
    /// the ingestion boundary; every submission is booked against the one
    /// bike on offer.
    pub fn from_request(cost_hundredths: i64) -> (r: PurchaseRecord)
        ensures
            r.bike_id == 1,
            r.cost_hundredths == cost_hundredths,
    {
        PurchaseRecord { bike_id: 1, cost_hundredths }
    }
}

impl AggregateSnapshot {
    /// The aggregate at process start: nothing folded yet.
    pub fn initial() -> (r: AggregateSnapshot)
        ensures
            r.bike_count == 0,
            r.total_cost_hundredths == 0,
    {
        AggregateSnapshot { bike_count: 0, total_cost_hundredths: 0 }
    }
}

} // verus!
