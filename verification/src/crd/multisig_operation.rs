//! Administrative operations that several operators have to sign.

use vstd::prelude::*;
use vstd::string::*;
use crate::clock::Timestamp;

verus! {

#[derive(Debug)]
pub struct MultiSigOperationSpec {
    pub operation_type: AdminOperationType,
    pub description: String,
    pub target_network: String,
    /// The transaction in XDR, in Base64 or hexadecimal.
    pub transaction_xdr_payload: String,
    pub transaction_hash: String,
    /// How many signatures are needed.
    pub threshold_m: u32,
    /// How many signers there are.
    pub total_signers_n: u32,
    pub signers: Vec<SignerEndpointSpec>,
    pub timeout_seconds: u64,
    pub auto_submit_on_quorum: bool,
    pub submission_endpoint: Option<String>,
}

#[derive(Debug)]
pub enum AdminOperationType {
    SettingsUpgrade,
    SignerUpdate,
    ProtocolUpgrade,
    FeePoolChange,
    AnchorTrustline,
    Custom(String),
}

/// Who signs, and where.
#[derive(Debug)]
pub struct SignerEndpointSpec {
    pub signer_id: String,
    pub public_key: String,
    pub sidecar_endpoint: Option<String>,
    pub secret_ref: Option<String>,
    pub weight: u32,
}

#[derive(Clone, Copy, Debug, PartialEq, Eq, Structural)]
pub enum MultiSigPhase {
    Pending,
    Collecting,
    QuorumReached,
    Submitting,
    Submitted,
    Expired,
    Failed,
}

impl Default for MultiSigPhase {
    fn default() -> (r: Self)
        ensures
            r == MultiSigPhase::Pending,
    {
        MultiSigPhase::Pending
    }
}

#[derive(Debug)]
pub struct MultiSigOperationStatus {
    pub phase: MultiSigPhase,
    /// Such as `2/3`.
    pub quorum_progress: String,
    pub signatures_collected: u32,
    pub signatures_required: u32,
    pub quorum_reached: bool,
    pub collected_signatures: Vec<CollectedSignature>,
    pub missing_signers: Vec<String>,
    pub expires_at: Timestamp,
    pub submission_result: Option<SubmissionResult>,
    pub audit_trail: Vec<MultiSigAuditEntry>,
    pub conditions: Vec<MultiSigCondition>,
}

#[derive(Debug)]
pub struct CollectedSignature {
    pub signer_id: String,
    pub public_key: String,
    pub signature: String,
    pub signed_at: Timestamp,
    pub source: String,
}

#[derive(Debug)]
pub struct SubmissionResult {
    pub submitted_at: Timestamp,
    pub transaction_hash: String,
    pub ledger_sequence: Option<u64>,
    pub success: bool,
    pub response_code: Option<String>,
    pub error_message: Option<String>,
}

#[derive(Debug)]
pub struct MultiSigAuditEntry {
    pub timestamp: Timestamp,
    pub actor: String,
    pub action: String,
    pub details: String,
}

#[derive(Debug)]
pub struct MultiSigCondition {
    pub type_: String,
    pub status: String,
    pub reason: String,
    pub message: String,
    pub last_transition_time: Option<Timestamp>,
}

} // verus!
