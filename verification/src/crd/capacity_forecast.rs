//! Forecasts of when capacity runs out.

use vstd::prelude::*;
use vstd::string::*;

verus! {

#[derive(Clone, Copy, Debug, PartialEq, Eq, PartialOrd, Ord, Hash, Structural)]
pub enum CapacityDimension {
    Cpu,
    Memory,
    Storage,
    ObjectCount,
}

#[derive(Clone, Copy, Debug, PartialEq, Eq, Structural)]
pub enum ForecastModelKind {
    /// A robust linear trend.
    RobustLinear,
    /// A robust linear trend with a weekly part.
    SeasonalLinear,
}

/// In how many days capacity runs out; none where it does not in the time that
/// was looked at.
#[derive(Clone, Copy, Debug, PartialEq, Eq, Structural)]
pub struct TimeToExhaustion {
    pub earliest_days: Option<u32>,
    pub expected_days: Option<u32>,
    pub latest_days: Option<u32>,
}

#[derive(Clone, Copy, Debug, PartialEq, Eq, PartialOrd, Ord, Structural)]
pub enum RecommendationPriority {
    Critical,
    High,
    Medium,
    Low,
}

/// Whether an incident of the past would have been foreseen.
#[derive(Debug)]
pub struct IncidentBacktest {
    pub cluster: String,
    pub dimension: CapacityDimension,
    pub object_kind: Option<String>,
    pub occurred_at: String,
    pub lead_time_days: Option<u32>,
    pub met: bool,
}

#[derive(Clone, Copy, Debug, PartialEq, Eq, Structural)]
pub enum RecommendationPhase {
    Pending,
    Acknowledged,
    Applied,
    Superseded,
}

impl Default for RecommendationPhase {
    fn default() -> (r: Self)
        ensures
            r == RecommendationPhase::Pending,
    {
        RecommendationPhase::Pending
    }
}

#[derive(Debug)]
pub struct CapacityRecommendationReportStatus {
    pub phase: RecommendationPhase,
    pub message: Option<String>,
    pub observed_generation: Option<i64>,
}

impl Default for CapacityRecommendationReportStatus {
    fn default() -> (r: Self)
        ensures
            r.phase == RecommendationPhase::Pending,
            r.message is None,
            r.observed_generation is None,
    {
        CapacityRecommendationReportStatus {
            phase: RecommendationPhase::Pending,
            message: None,
            observed_generation: None,
        }
    }
}

} // verus!
