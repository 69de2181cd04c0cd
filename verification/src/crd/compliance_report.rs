//! Reports on validators for regulators.

use vstd::prelude::*;
use vstd::string::*;
use crate::clock::Timestamp;

verus! {

#[derive(Debug)]
pub struct ComplianceReportSpec {
    /// The validator that is reported on.
    pub validator_ref: String,
    /// Daily, Weekly or a cron expression.
    pub schedule: String,
    pub period_days: u32,
    pub include_uptime_evidence: bool,
    pub include_key_custody: bool,
    pub include_tx_processing: bool,
    pub formats: Vec<ComplianceReportFormat>,
    pub destination: ReportDestinationConfig,
    pub hsm_kms_verification: Option<HsmKmsVerificationSpec>,
}

#[derive(Clone, Copy, Debug, PartialEq, Eq, Structural)]
pub enum ComplianceReportFormat {
    Json,
    Pdf,
    Csv,
}

/// Where reports go.
#[derive(Debug)]
pub struct ReportDestinationConfig {
    pub save_config_map: bool,
    pub config_map_prefix: Option<String>,
    pub object_storage_bucket: Option<String>,
    pub object_storage_prefix: Option<String>,
}

impl Default for ReportDestinationConfig {
    fn default() -> (r: Self)
        ensures
            r.save_config_map,
            r.config_map_prefix is Some,
            r.config_map_prefix->0@ == "compliance-report-"@,
            r.object_storage_bucket is None,
            r.object_storage_prefix is None,
    {
        ReportDestinationConfig {
            save_config_map: true,
            config_map_prefix: Some("compliance-report-".to_string()),
            object_storage_bucket: None,
            object_storage_prefix: None,
        }
    }
}

/// How a validator's key has to be kept.
#[derive(Debug)]
pub struct HsmKmsVerificationSpec {
    pub expected_provider: Option<String>,
    pub expected_key_id: Option<String>,
    pub enforce_fips_level3: bool,
}

#[derive(Clone, Copy, Debug, PartialEq, Eq, Structural)]
pub enum ComplianceReportPhase {
    Pending,
    Scheduled,
    Generating,
    Generated,
    Failed,
}

impl Default for ComplianceReportPhase {
    fn default() -> (r: Self)
        ensures
            r == ComplianceReportPhase::Pending,
    {
        ComplianceReportPhase::Pending
    }
}

/// How a validator's key is kept.
#[derive(Debug)]
pub struct KeyCustodyAttestation {
    pub provider: String,
    pub key_id: String,
    pub hsm_backed: bool,
    pub algorithm: String,
    pub multi_party_authorized: bool,
    pub attestation_digest: String,
    pub attested_at: Timestamp,
}

/// A report that was made.
#[derive(Debug)]
pub struct GeneratedArtifactRef {
    pub format: String,
    pub storage_type: String,
    pub location_ref: String,
    pub sha256_checksum: String,
    pub size_bytes: usize,
}

#[derive(Debug)]
pub struct ComplianceCondition {
    pub type_: String,
    pub status: String,
    pub reason: String,
    pub message: String,
    pub last_transition_time: Option<Timestamp>,
}

} // verus!
