//! Configuration types that several custom resources share.

use vstd::prelude::*;
use crate::json::Json;
use crate::str_map::StrMap;

verus! {

/// What a Stellar node does.
#[derive(Clone, Copy, Debug, PartialEq, Eq, Structural)]
pub enum NodeType {
    Validator,
    Horizon,
    SorobanRpc,
}

impl NodeType {
    pub open spec fn name(self) -> Seq<char> {
        match self {
            NodeType::Validator => "Validator"@,
            NodeType::Horizon => "Horizon"@,
            NodeType::SorobanRpc => "SorobanRpc"@,
        }
    }

    pub open spec fn component(self) -> Seq<char> {
        match self {
            NodeType::Validator => "validator"@,
            NodeType::Horizon => "horizon"@,
            NodeType::SorobanRpc => "sorobanrpc"@,
        }
    }

    /// The name of the type.
    pub fn as_str(self) -> (r: &'static str)
        ensures
            r@ == self.name(),
    {
        match self {
            NodeType::Validator => "Validator",
            NodeType::Horizon => "Horizon",
            NodeType::SorobanRpc => "SorobanRpc",
        }
    }

    /// The name of the type in lower case.
    pub fn component_str(self) -> (r: &'static str)
        ensures
            r@ == self.component(),
    {
        match self {
            NodeType::Validator => "validator",
            NodeType::Horizon => "horizon",
            NodeType::SorobanRpc => "sorobanrpc",
        }
    }
}

/// The network that a node belongs to.
#[derive(Clone, Copy, Debug, PartialEq, Eq, Structural)]
pub enum StellarNetwork {
    Mainnet,
    Testnet,
    Futurenet,
    Custom,
}

pub struct ResourceSpec {
    pub cpu: String,
    pub memory: String,
}

/// Compute resources of a container.
pub struct ResourceRequirements {
    pub requests: ResourceSpec,
    pub limits: ResourceSpec,
}

#[derive(Clone, Copy, Debug, PartialEq, Eq, Structural)]
pub enum StorageMode {
    PersistentVolume,
    Local,
}

/// What becomes of the volume claim when its node is deleted.
#[derive(Clone, Copy, Debug, PartialEq, Eq, Structural)]
pub enum RetentionPolicy {
    Delete,
    Retain,
}

impl Default for RetentionPolicy {
    /// A claim that nobody asked to keep is deleted with its node.
    fn default() -> (r: Self)
        ensures
            r == RetentionPolicy::Delete,
    {
        RetentionPolicy::Delete
    }
}

/// Where a new volume is filled from.
pub struct SnapshotRef {
    pub volume_snapshot_name: Option<String>,
    pub backup_url: Option<String>,
    pub credentials_secret_ref: Option<String>,
    pub restore_image: Option<String>,
}

pub struct RestoreFromSnapshot {
    pub volume_snapshot_name: String,
}

pub struct StorageConfig {
    pub mode: StorageMode,
    pub storage_class: String,
    pub size: String,
    pub retention_policy: RetentionPolicy,
    pub annotations: Option<StrMap<String>>,
    /// Node affinity, as a manifest fragment.
    pub node_affinity: Option<Json>,
    pub snapshot_ref: Option<SnapshotRef>,
}

#[derive(Clone, Copy, Debug, PartialEq, Eq, Structural)]
pub enum KeySource {
    Secret,
    KMS,
}

pub struct KmsConfig {
    pub key_id: String,
    pub provider: String,
    pub region: Option<String>,
    pub fetcher_image: Option<String>,
}

#[derive(Clone, Copy, Debug, PartialEq, Eq, Structural)]
pub enum HsmProvider {
    AWS,
    Azure,
}

pub struct HsmConfig {
    pub provider: HsmProvider,
    pub pkcs11_lib_path: String,
    pub hsm_ip: Option<String>,
    pub hsm_credentials_secret_ref: Option<String>,
}

pub struct ExternalDnsConfig {
    pub hostname: String,
    pub ttl: u32,
    pub provider: Option<String>,
    pub annotations: Option<StrMap<String>>,
}

pub struct ValidatorConfig {
    pub seed_secret_ref: String,
    /// Set where the seed comes from an external secret store.
    pub seed_secret_source: Option<Json>,
    pub key_source: KeySource,
    pub kms_config: Option<KmsConfig>,
    pub hsm_config: Option<HsmConfig>,
    /// Quorum set, as TOML.
    pub quorum_set: Option<String>,
    /// Known peers, as TOML.
    pub known_peers: Option<String>,
    pub enable_history_archive: bool,
    pub history_archive_urls: Vec<String>,
    pub external_dns: Option<ExternalDnsConfig>,
}

pub struct HorizonConfig {
    pub stellar_core_url: String,
    pub enable_ingest: bool,
    pub ingest_workers: u32,
    pub auto_migration: bool,
}

/// Second-level cache of a Soroban RPC node.
pub struct SorobanCacheConfig {
    pub l1_capacity: u64,
    pub l2_path: String,
    pub l2_max_bytes: u64,
}

pub struct SorobanConfig {
    pub stellar_core_url: String,
    pub captive_core_config: Option<String>,
    pub captive_core_structured_config: Option<Json>,
    pub cache_config: Option<SorobanCacheConfig>,
}

pub struct SecretKeyRef {
    pub name: String,
    pub key: String,
}

pub struct ExternalDatabaseConfig {
    pub secret_key_ref: Option<SecretKeyRef>,
}

pub struct ManagedDatabaseStorage {
    pub size: String,
    pub storage_class: String,
}

pub struct ManagedDatabaseBackup {
    pub destination_path: String,
    pub credentials_secret_ref: String,
    pub retention_policy: String,
}

#[derive(Clone, Copy, Debug, PartialEq, Eq, Structural)]
pub enum PgBouncerPoolMode {
    Session,
    Transaction,
    Statement,
}

pub struct PgBouncerConfig {
    pub enabled: bool,
    pub replicas: i32,
    pub pool_mode: PgBouncerPoolMode,
    pub max_client_conn: i32,
    pub default_pool_size: i32,
}

pub struct ManagedDatabaseConfig {
    pub instances: i32,
    pub storage: ManagedDatabaseStorage,
    pub backup: Option<ManagedDatabaseBackup>,
    pub pooling: Option<PgBouncerConfig>,
    pub postgres_version: String,
    pub database_name: Option<String>,
    pub username: Option<String>,
}

pub struct ScalingPolicy {
    pub policy_type: String,
    pub value: i32,
    pub period_seconds: i32,
}

pub struct ScalingRules {
    pub stabilization_window_seconds: Option<i32>,
    pub policies: Vec<ScalingPolicy>,
}

pub struct ScalingBehavior {
    pub scale_up: Option<ScalingRules>,
    pub scale_down: Option<ScalingRules>,
}

pub struct AutoscalingConfig {
    pub min_replicas: i32,
    pub max_replicas: i32,
    pub target_cpu_utilization_percentage: Option<i32>,
    pub target_memory_utilization_percentage: Option<i32>,
    pub custom_metrics: Vec<String>,
    pub behavior: Option<ScalingBehavior>,
}

pub struct IngressPath {
    pub path: String,
    pub path_type: Option<String>,
}

pub struct IngressHost {
    pub host: String,
    pub paths: Vec<IngressPath>,
}

pub struct IngressRateLimit {
    pub requests_per_second: Option<u32>,
    pub requests_per_minute: Option<u32>,
    pub connections: Option<u32>,
    pub burst_multiplier: Option<u32>,
    pub whitelist_cidrs: Option<String>,
}

pub struct IngressConfig {
    pub class_name: Option<String>,
    pub hosts: Vec<IngressHost>,
    pub tls_secret_name: Option<String>,
    pub annotations: Option<StrMap<String>>,
    pub cert_manager_issuer: Option<String>,
    pub cert_manager_cluster_issuer: Option<String>,
    pub external_dns: Option<ExternalDnsConfig>,
    pub rate_limit: Option<IngressRateLimit>,
}

pub struct NetworkPolicyConfig {
    pub enabled: bool,
    pub allow_namespaces: Vec<String>,
    pub allow_pod_selector: Option<StrMap<String>>,
    pub allow_cidrs: Vec<String>,
    pub allow_metrics_scrape: bool,
    pub metrics_namespace: String,
}

#[derive(Clone, Copy, Debug, PartialEq, Eq, Structural)]
pub enum LoadBalancerMode {
    L2,
    BGP,
}

pub struct BGPPeer {
    pub address: String,
    pub asn: u32,
}

pub struct BGPConfig {
    pub local_asn: u32,
    pub peers: Vec<BGPPeer>,
}

pub struct LoadBalancerConfig {
    pub enabled: bool,
    pub mode: LoadBalancerMode,
    pub bgp: Option<BGPConfig>,
    pub health_check_enabled: bool,
    pub health_check_port: i32,
    pub external_dns: Option<ExternalDnsConfig>,
}

pub struct GlobalDiscoveryConfig {
    pub enabled: bool,
    pub external_dns: Option<ExternalDnsConfig>,
}

#[derive(Clone, Copy, Debug, PartialEq, Eq, Structural)]
pub enum RolloutStrategyType {
    RollingUpdate,
    Canary,
    BlueGreen,
}

pub struct CanaryConfig {
    /// Share of the traffic that the canary gets at first, in percent.
    pub weight: i32,
}

pub struct RolloutStrategy {
    pub strategy_type: RolloutStrategyType,
    /// Canary settings, where the rollout is a canary rollout.
    pub canary: Option<CanaryConfig>,
}

#[derive(Clone, Copy, Debug, PartialEq, Eq, Structural)]
pub enum PodAntiAffinityStrength {
    Hard,
    Soft,
    Disabled,
}

pub struct PlacementConfig {
    pub scp_aware_anti_affinity: bool,
    /// Jurisdiction that the node's data is bound to.
    pub jurisdiction: Option<Json>,
}

pub struct ForensicSnapshotConfig {
    pub enable_share_process_namespace: bool,
}

#[derive(Clone, Copy, Debug, PartialEq, Eq, Structural)]
pub enum DRSyncStrategy {
    PeriodicSnapshot,
    StreamingLedger,
}

pub struct DisasterRecoveryConfig {
    pub enabled: bool,
    pub sync_strategy: DRSyncStrategy,
}

pub struct NatTraversalConfig {
    pub enabled: bool,
    pub enable_ice: bool,
    pub stun_server: Option<String>,
    pub turn_server: Option<String>,
    pub turn_credentials_secret_ref: Option<String>,
    pub sidecar_image: Option<String>,
}

pub struct HitlessUpgradeConfig {
    pub enabled: bool,
    pub sidecar_image: Option<String>,
    pub handoff_timeout_seconds: u32,
}

pub struct LogShipperConfig {
    pub enabled: bool,
    pub s3_bucket: String,
    pub s3_prefix: Option<String>,
    pub s3_region: Option<String>,
    pub batch_size_lines: u64,
    pub flush_interval_secs: u64,
    pub credentials_secret_ref: Option<String>,
    pub image: Option<String>,
}

pub struct EbpfConfig {
    pub enabled: bool,
    pub monitor_write_latency: bool,
    pub monitor_tcp_retransmits: bool,
}

#[derive(Clone, Copy, Debug, PartialEq, Eq, Structural)]
pub enum ReplicationRole {
    Active,
    Passive,
}

pub struct ReplicationConfig {
    pub enabled: bool,
    pub role: ReplicationRole,
    pub remote_cluster_id: String,
}

/// Thresholds that replace those of a default probe.
#[derive(Clone, Copy, Debug)]
pub struct ProbeOverride {
    pub initial_delay_seconds: Option<i32>,
    pub period_seconds: Option<i32>,
    pub timeout_seconds: Option<i32>,
    pub success_threshold: Option<i32>,
    pub failure_threshold: Option<i32>,
}

#[derive(Clone, Copy, Debug)]
pub struct ProbesConfig {
    pub liveness: Option<ProbeOverride>,
    pub readiness: Option<ProbeOverride>,
    pub startup: Option<ProbeOverride>,
}

/// A condition in a resource's status.
#[derive(Debug)]
pub struct Condition {
    pub type_: String,
    pub status: String,
    pub reason: String,
    pub message: String,
    pub last_transition_time: String,
    pub observed_generation: Option<i64>,
}

} // verus!
