//! Rollouts that go on step by step.

use vstd::prelude::*;
use vstd::string::*;

verus! {

/// How traffic is split between the old and the new.
#[derive(Debug)]
pub struct TrafficSplit {
    /// `service_mesh` or `service`.
    pub mode: String,
    pub mesh_type: Option<String>,
    pub virtual_service: Option<String>,
}

#[derive(Clone, Copy, Debug, PartialEq, Eq, Structural)]
pub enum PromotionPhase {
    Pending,
    AnalyzingBaseline,
    CanaryActive,
    WaitingForAnalysis,
    ReadyToPromote,
    Promoting,
    Completed,
    RollingBack,
    RolledBack,
    Failed,
}

impl Default for PromotionPhase {
    fn default() -> (r: Self)
        ensures
            r == PromotionPhase::Pending,
    {
        PromotionPhase::Pending
    }
}

} // verus!
