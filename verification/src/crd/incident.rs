//! Incidents of the network and of consensus.

use vstd::prelude::*;
use vstd::string::*;
use crate::clock::Timestamp;
use crate::json::Json;

verus! {

#[derive(Debug)]
pub struct IncidentSpec {
    pub title: String,
    pub incident_type: IncidentType,
    pub severity: IncidentSeverity,
    /// Names of the nodes that are affected.
    pub affected_nodes: Vec<String>,
    /// Where alerts are sent.
    pub alert_channels: Vec<AlertChannelConfig>,
    /// Whether the operator may change the quorum by itself.
    pub auto_remediation_enabled: bool,
}

#[derive(Debug)]
pub enum IncidentType {
    NetworkPartition,
    LedgerStall,
    QuorumDegradation,
    ByzantineFault,
    Custom(String),
}

#[derive(Clone, Copy, Debug, PartialEq, Eq, Structural)]
pub enum IncidentSeverity {
    Critical,
    High,
    Medium,
    Low,
}

/// Where alerts are sent.
#[derive(Debug)]
pub struct AlertChannelConfig {
    pub name: String,
    pub channel_type: AlertChannelType,
    pub endpoint_url: String,
    pub routing_key: Option<String>,
}

#[derive(Clone, Copy, Debug, PartialEq, Eq, Structural)]
pub enum AlertChannelType {
    Webhook,
    Slack,
    PagerDuty,
    OpsGenie,
}

#[derive(Clone, Copy, Debug, PartialEq, Eq, Structural)]
pub enum IncidentPhase {
    Detected,
    Escalated,
    Mitigating,
    Resolved,
    PostMortem,
}

impl Default for IncidentPhase {
    fn default() -> (r: Self)
        ensures
            r == IncidentPhase::Detected,
    {
        IncidentPhase::Detected
    }
}

#[derive(Debug)]
pub struct IncidentStatus {
    pub phase: IncidentPhase,
    pub detected_at: Timestamp,
    pub resolved_at: Option<Timestamp>,
    pub partition_details: Option<PartitionDetails>,
    pub quorum_adjustment_recommendation: Option<QuorumAdjustmentRecommendation>,
    /// What happened, in order.
    pub timeline: Vec<IncidentTimelineEntry>,
    /// The alerts that were sent.
    pub alert_dispatches: Vec<AlertDispatchResult>,
}

/// What is known of a partition.
#[derive(Debug)]
pub struct PartitionDetails {
    /// How many ledgers in a row did not close.
    pub missed_ledger_closes: u32,
    /// How many seconds a ledger should take.
    pub expected_close_time_secs: u32,
    /// The last ledger before the stall.
    pub last_closed_ledger: u64,
    pub stall_duration_secs: u64,
    pub unreachable_peers: Vec<String>,
    pub reachable_peers: Vec<String>,
}

/// How the quorum could be changed while the partition lasts.
#[derive(Debug)]
pub struct QuorumAdjustmentRecommendation {
    /// The validators without those that cannot be reached.
    pub suggested_quorum_set: Vec<String>,
    pub new_threshold: u32,
    pub rationale: String,
    pub action_plan: Vec<String>,
}

#[derive(Debug)]
pub struct IncidentTimelineEntry {
    pub timestamp: Timestamp,
    pub stage: String,
    pub message: String,
    pub metadata: Option<Json>,
}

/// What came of an alert.
#[derive(Debug)]
pub struct AlertDispatchResult {
    pub channel_name: String,
    pub dispatched_at: Timestamp,
    pub success: bool,
    pub latency_ms: u64,
    pub response_message: Option<String>,
}

} // verus!
