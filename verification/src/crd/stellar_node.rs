//! The `StellarNode` custom resource: a managed Stellar node of one of the
//! types Validator, Horizon API and Soroban RPC.

use vstd::prelude::*;
use vstd::string::*;
use crate::crd::types::{
    AutoscalingConfig, BGPConfig, BGPPeer, Condition, DisasterRecoveryConfig, EbpfConfig,
    ExternalDatabaseConfig, ForensicSnapshotConfig, GlobalDiscoveryConfig, HitlessUpgradeConfig,
    HorizonConfig, IngressConfig, IngressHost, IngressPath, LoadBalancerConfig, LoadBalancerMode,
    LogShipperConfig, ManagedDatabaseConfig, NatTraversalConfig, NetworkPolicyConfig, NodeType,
    PlacementConfig, PodAntiAffinityStrength, ProbesConfig, ReplicationConfig, ResourceRequirements,
    RestoreFromSnapshot, RetentionPolicy, RolloutStrategy, SorobanConfig, StellarNetwork,
    StorageConfig, ValidatorConfig,
};
use crate::json::Json;
use crate::str_map::StrMap;
use crate::text::{blank, cat2, cat3, decimal, decimal_text, is_blank, same};

verus! {

/// Whether a node keeps the full history or only recent ledgers.
#[derive(Clone, Copy, Debug, PartialEq, Eq, Structural)]
pub enum HistoryMode {
    Full,
    Recent,
}

pub struct StellarNodeSpec {
    pub node_type: NodeType,
    pub history_mode: HistoryMode,
    pub network: StellarNetwork,
    pub custom_network_passphrase: Option<String>,
    pub version: String,
    pub resources: ResourceRequirements,
    pub storage: StorageConfig,
    pub restore_from_snapshot: Option<RestoreFromSnapshot>,
    pub validator_config: Option<ValidatorConfig>,
    pub horizon_config: Option<HorizonConfig>,
    pub soroban_config: Option<SorobanConfig>,
    pub replicas: i32,
    /// Disruption budget, as an integer or a percentage.
    pub min_available: Option<Json>,
    pub max_unavailable: Option<Json>,
    pub suspended: bool,
    pub alerting: bool,
    pub database: Option<ExternalDatabaseConfig>,
    pub managed_database: Option<ManagedDatabaseConfig>,
    pub autoscaling: Option<AutoscalingConfig>,
    pub ingress: Option<IngressConfig>,
    pub maintenance_mode: bool,
    pub network_policy: Option<NetworkPolicyConfig>,
    pub load_balancer: Option<LoadBalancerConfig>,
    pub global_discovery: Option<GlobalDiscoveryConfig>,
    pub topology_spread_constraints: Option<Vec<Json>>,
    pub strategy: RolloutStrategy,
    pub pod_anti_affinity: PodAntiAffinityStrength,
    pub placement: PlacementConfig,
    pub node_affinity: Option<Json>,
    pub tolerations: Vec<Json>,
    pub priority_class_name: Option<String>,
    pub volumes: Option<Vec<Json>>,
    pub volume_mounts: Option<Vec<Json>>,
    pub sidecars: Option<Vec<Json>>,
    pub init_containers: Option<Vec<Json>>,
    pub stellar_core_env: Vec<Json>,
    pub horizon_env: Vec<Json>,
    pub probes: Option<ProbesConfig>,
    pub diagnostic_sidecar_resources: Option<ResourceRequirements>,
    pub forensic_snapshot: Option<ForensicSnapshotConfig>,
    pub dr_config: Option<DisasterRecoveryConfig>,
    pub nat_traversal: Option<NatTraversalConfig>,
    pub hitless_upgrade: Option<HitlessUpgradeConfig>,
    pub log_shipper: Option<LogShipperConfig>,
    pub ebpf_config: Option<EbpfConfig>,
    pub replication_config: Option<ReplicationConfig>,
    pub service_annotations: Option<StrMap<String>>,
    pub service_labels: Option<StrMap<String>>,
    /// Metadata that users lay over that of the resources.
    pub resource_meta: Option<Json>,
}

/// A `StellarNode` object.
pub struct StellarNode {
    /// The object's name, or the prefix that one is generated from.
    pub name: String,
    pub namespace: Option<String>,
    pub uid: Option<String>,
    pub spec: StellarNodeSpec,
    pub status: Option<StellarNodeStatus>,
}

pub struct StellarNodeStatus {
    pub phase: String,
    pub message: Option<String>,
    pub observed_generation: Option<i64>,
    pub conditions: Vec<Condition>,
    pub ledger_sequence: Option<u64>,
    pub endpoint: Option<String>,
    pub external_ip: Option<String>,
    pub bgp_status: Option<BGPStatus>,
    pub ready_replicas: i32,
    pub replicas: i32,
    pub canary_version: Option<String>,
    pub canary_weight: Option<i32>,
}

pub struct BGPStatus {
    pub sessions_established: bool,
    pub active_peers: i32,
    pub advertised_prefixes: Vec<String>,
    pub last_update: Option<String>,
}

/// What is wrong with one path of an ingress host.
pub open spec fn path_error(p: IngressPath) -> Option<Seq<char>> {
    if blank(p.path@) {
        Some("ingress.hosts[].paths[].path must not be empty"@)
    } else if p.path_type is Some && p.path_type->0@ != "Prefix"@ && p.path_type->0@ != "Exact"@ {
        Some("ingress.hosts[].paths[].pathType must be either Prefix or Exact"@)
    } else {
        None
    }
}

/// The first thing that is wrong with the paths from `i` on.
pub open spec fn paths_error(v: Seq<IngressPath>, i: int) -> Option<Seq<char>>
    decreases v.len() - i,
{
    if i < 0 || i >= v.len() {
        None
    } else if path_error(v[i]) is Some {
        path_error(v[i])
    } else {
        paths_error(v, i + 1)
    }
}

/// What is wrong with one ingress host.
pub open spec fn host_error(h: IngressHost) -> Option<Seq<char>> {
    if blank(h.host@) {
        Some("ingress.hosts[].host must not be empty"@)
    } else if h.paths@.len() == 0 {
        Some("ingress.hosts[].paths must not be empty"@)
    } else {
        paths_error(h.paths@, 0)
    }
}

/// The first thing that is wrong with the hosts from `i` on.
pub open spec fn hosts_error(v: Seq<IngressHost>, i: int) -> Option<Seq<char>>
    decreases v.len() - i,
{
    if i < 0 || i >= v.len() {
        None
    } else if host_error(v[i]) is Some {
        host_error(v[i])
    } else {
        hosts_error(v, i + 1)
    }
}

/// The first thing that is wrong with an ingress configuration.
pub open spec fn ingress_error(c: IngressConfig) -> Option<Seq<char>> {
    if c.hosts@.len() == 0 {
        Some("ingress.hosts must not be empty"@)
    } else {
        hosts_error(c.hosts@, 0)
    }
}

/// What is wrong with the BGP peer at `i`.
pub open spec fn peer_error(p: BGPPeer, i: int) -> Option<Seq<char>> {
    if blank(p.address@) {
        Some("loadBalancer.bgp.peers["@ + decimal(i) + "].address must not be empty"@)
    } else if p.asn == 0 {
        Some("loadBalancer.bgp.peers["@ + decimal(i) + "].asn must be a valid ASN"@)
    } else {
        None
    }
}

/// The first thing that is wrong with the peers from `i` on.
pub open spec fn peers_error(v: Seq<BGPPeer>, i: int) -> Option<Seq<char>>
    decreases v.len() - i,
{
    if i < 0 || i >= v.len() {
        None
    } else if peer_error(v[i], i) is Some {
        peer_error(v[i], i)
    } else {
        peers_error(v, i + 1)
    }
}

/// The first thing that is wrong with a BGP configuration.
pub open spec fn bgp_error(c: Option<BGPConfig>) -> Option<Seq<char>> {
    match c {
        Some(bgp) => if bgp.local_asn == 0 {
            Some("loadBalancer.bgp.localASN must be a valid ASN (1-4294967295)"@)
        } else if bgp.peers@.len() == 0 {
            Some("loadBalancer.bgp.peers must not be empty when using BGP mode"@)
        } else {
            peers_error(bgp.peers@, 0)
        },
        None => Some("loadBalancer.bgp configuration is required when mode is BGP"@),
    }
}

/// The first thing that is wrong with a load balancer configuration.
pub open spec fn load_balancer_error(lb: LoadBalancerConfig) -> Option<Seq<char>> {
    if !lb.enabled {
        None
    } else if lb.mode == LoadBalancerMode::BGP && bgp_error(lb.bgp) is Some {
        bgp_error(lb.bgp)
    } else if lb.health_check_enabled && !(1 <= lb.health_check_port <= 65535) {
        Some("loadBalancer.healthCheckPort must be between 1 and 65535"@)
    } else {
        None
    }
}

/// The first thing that is wrong with a global discovery configuration.
pub open spec fn global_discovery_error(gd: GlobalDiscoveryConfig) -> Option<Seq<char>> {
    match gd.external_dns {
        Some(dns) => if !gd.enabled {
            None
        } else if blank(dns.hostname@) {
            Some("globalDiscovery.externalDns.hostname must not be empty"@)
        } else if dns.ttl == 0 {
            Some("globalDiscovery.externalDns.ttl must be greater than 0"@)
        } else {
            None
        },
        None => None,
    }
}

/// The first thing that is wrong with what only an API node may have.
pub open spec fn api_node_error(s: StellarNodeSpec) -> Option<Seq<char>> {
    if s.autoscaling is Some && s.autoscaling->0.min_replicas < 1 {
        Some("autoscaling.minReplicas must be at least 1"@)
    } else if s.autoscaling is Some && s.autoscaling->0.max_replicas
        < s.autoscaling->0.min_replicas {
        Some("autoscaling.maxReplicas must be >= minReplicas"@)
    } else if s.ingress is Some {
        ingress_error(s.ingress->0)
    } else {
        None
    }
}

/// The first thing that is wrong with the settings of the node's type.
pub open spec fn node_type_error(s: StellarNodeSpec) -> Option<Seq<char>> {
    match s.node_type {
        NodeType::Validator => if s.validator_config is None {
            Some("validatorConfig is required for Validator nodes"@)
        } else if s.validator_config->0.enable_history_archive
            && s.validator_config->0.history_archive_urls@.len() == 0 {
            Some("historyArchiveUrls must not be empty when enableHistoryArchive is true"@)
        } else if s.replicas != 1 {
            Some("Validator nodes must have exactly 1 replica"@)
        } else if s.autoscaling is Some {
            Some("autoscaling is not supported for Validator nodes"@)
        } else if s.ingress is Some {
            Some("ingress is not supported for Validator nodes"@)
        } else {
            None
        },
        NodeType::Horizon => if s.horizon_config is None {
            Some("horizonConfig is required for Horizon nodes"@)
        } else {
            api_node_error(s)
        },
        NodeType::SorobanRpc => if s.soroban_config is None {
            Some("sorobanConfig is required for SorobanRpc nodes"@)
        } else {
            api_node_error(s)
        },
    }
}

/// The first thing that is wrong with a node's spec.
pub open spec fn spec_error(s: StellarNodeSpec) -> Option<Seq<char>> {
    if node_type_error(s) is Some {
        node_type_error(s)
    } else if s.load_balancer is Some && load_balancer_error(s.load_balancer->0) is Some {
        load_balancer_error(s.load_balancer->0)
    } else if s.global_discovery is Some {
        global_discovery_error(s.global_discovery->0)
    } else {
        None
    }
}

/// `r` reports the problem `e`, or success where there is none.
pub open spec fn reports(r: Result<(), String>, e: Option<Seq<char>>) -> bool {
    match (r, e) {
        (Ok(_), None) => true,
        (Err(s), Some(t)) => s@ == t,
        _ => false,
    }
}

/// A report succeeds just where there is no problem, and fails with the problem
/// and no other text.
pub proof fn law_report_is_of_the_problem(r: Result<(), String>, e: Option<Seq<char>>)
    requires
        reports(r, e),
    ensures
        r is Ok <==> e is None,
        r is Err ==> e == Some(r->Err_0@),
{
}

/// Success reports that there is no problem, and a text reports the problem that
/// it tells.
pub proof fn law_every_outcome_reports_one_problem(s: String)
    ensures
        reports(Ok(()), None),
        reports(Err(s), Some(s@)),
{
}

fn validate_paths(v: &Vec<IngressPath>) -> (r: Result<(), String>)
    ensures
        reports(r, paths_error(v@, 0)),
{
    let mut i: usize = 0;
    while i < v.len()
        invariant
            i <= v.len(),
            paths_error(v@, 0) == paths_error(v@, i as int),
        decreases v@.len() - i,
    {
        let path = &v[i];
        if is_blank(&path.path) {
            return Err("ingress.hosts[].paths[].path must not be empty".to_string());
        }
        if let Some(path_type) = &path.path_type {
            if !same(path_type, "Prefix") && !same(path_type, "Exact") {
                return Err(
                    "ingress.hosts[].paths[].pathType must be either Prefix or Exact".to_string(),
                );
            }
        }
        i = i + 1;
    }
    Ok(())
}

/// Checks the hosts and paths of an ingress.
pub fn validate_ingress(ingress: &IngressConfig) -> (r: Result<(), String>)
    ensures
        reports(r, ingress_error(*ingress)),
{
    if ingress.hosts.len() == 0 {
        return Err("ingress.hosts must not be empty".to_string());
    }
    let v = &ingress.hosts;
    let mut i: usize = 0;
    while i < v.len()
        invariant
            i <= v.len(),
            *v == ingress.hosts,
            v@.len() > 0,
            hosts_error(v@, 0) == hosts_error(v@, i as int),
        decreases v@.len() - i,
    {
        let host = &v[i];
        if is_blank(&host.host) {
            return Err("ingress.hosts[].host must not be empty".to_string());
        }
        if host.paths.len() == 0 {
            return Err("ingress.hosts[].paths must not be empty".to_string());
        }
        match validate_paths(&host.paths) {
            Ok(_) => {},
            Err(e) => {
                return Err(e);
            },
        }
        i = i + 1;
    }
    Ok(())
}

fn validate_bgp(c: &Option<BGPConfig>) -> (r: Result<(), String>)
    ensures
        reports(r, bgp_error(*c)),
{
    match c {
        Some(bgp) => {
            if bgp.local_asn == 0 {
                return Err(
                    "loadBalancer.bgp.localASN must be a valid ASN (1-4294967295)".to_string(),
                );
            }
            if bgp.peers.len() == 0 {
                return Err(
                    "loadBalancer.bgp.peers must not be empty when using BGP mode".to_string(),
                );
            }
            let v = &bgp.peers;
            let mut i: usize = 0;
            while i < v.len()
                invariant
                    i <= v.len(),
                    *v == bgp.peers,
                    *c == Some(*bgp),
                    bgp.local_asn != 0,
                    v@.len() > 0,
                    peers_error(v@, 0) == peers_error(v@, i as int),
                decreases v@.len() - i,
            {
                if is_blank(&v[i].address) {
                    return Err(
                        cat3(
                            "loadBalancer.bgp.peers[",
                            &decimal_text(i as u64),
                            "].address must not be empty",
                        ),
                    );
                }
                if v[i].asn == 0 {
                    return Err(
                        cat3(
                            "loadBalancer.bgp.peers[",
                            &decimal_text(i as u64),
                            "].asn must be a valid ASN",
                        ),
                    );
                }
                i = i + 1;
            }
            Ok(())
        },
        None => Err("loadBalancer.bgp configuration is required when mode is BGP".to_string()),
    }
}

/// Checks the BGP and health check settings of a load balancer.
pub fn validate_load_balancer(lb: &LoadBalancerConfig) -> (r: Result<(), String>)
    ensures
        reports(r, load_balancer_error(*lb)),
{
    if !lb.enabled {
        return Ok(());
    }
    if lb.mode == LoadBalancerMode::BGP {
        match validate_bgp(&lb.bgp) {
            Ok(_) => {},
            Err(e) => {
                return Err(e);
            },
        }
    }
    if lb.health_check_enabled && (lb.health_check_port < 1 || lb.health_check_port > 65535) {
        return Err("loadBalancer.healthCheckPort must be between 1 and 65535".to_string());
    }
    Ok(())
}

/// Checks the DNS settings of global discovery.
pub fn validate_global_discovery(gd: &GlobalDiscoveryConfig) -> (r: Result<(), String>)
    ensures
        reports(r, global_discovery_error(*gd)),
{
    if !gd.enabled {
        return Ok(());
    }
    if let Some(dns) = &gd.external_dns {
        if is_blank(&dns.hostname) {
            return Err("globalDiscovery.externalDns.hostname must not be empty".to_string());
        }
        if dns.ttl == 0 {
            return Err("globalDiscovery.externalDns.ttl must be greater than 0".to_string());
        }
    }
    Ok(())
}

/// The container image of a node type in a version.
pub open spec fn image_of(node_type: NodeType, version: Seq<char>) -> Seq<char> {
    match node_type {
        NodeType::Validator => "stellar/stellar-core:"@ + version,
        NodeType::Horizon => "stellar/stellar-horizon:"@ + version,
        NodeType::SorobanRpc => "stellar/soroban-rpc:"@ + version,
    }
}

/// The container image of a node type in a version.
pub fn image_for(node_type: NodeType, version: &str) -> (r: String)
    ensures
        r@ == image_of(node_type, version@),
{
    match node_type {
        NodeType::Validator => cat2("stellar/stellar-core:", version),
        NodeType::Horizon => cat2("stellar/stellar-horizon:", version),
        NodeType::SorobanRpc => cat2("stellar/soroban-rpc:", version),
    }
}

impl StellarNodeSpec {
    fn validate_api_node(&self) -> (r: Result<(), String>)
        ensures
            reports(r, api_node_error(*self)),
    {
        if let Some(autoscaling) = &self.autoscaling {
            if autoscaling.min_replicas < 1 {
                return Err("autoscaling.minReplicas must be at least 1".to_string());
            }
            if autoscaling.max_replicas < autoscaling.min_replicas {
                return Err("autoscaling.maxReplicas must be >= minReplicas".to_string());
            }
        }
        match &self.ingress {
            Some(ingress) => validate_ingress(ingress),
            None => Ok(()),
        }
    }

    fn validate_node_type(&self) -> (r: Result<(), String>)
        ensures
            reports(r, node_type_error(*self)),
    {
        match self.node_type {
            NodeType::Validator => {
                match &self.validator_config {
                    None => {
                        return Err("validatorConfig is required for Validator nodes".to_string());
                    },
                    Some(vc) => {
                        if vc.enable_history_archive && vc.history_archive_urls.len() == 0 {
                            return Err(
                                "historyArchiveUrls must not be empty when enableHistoryArchive is true".to_string(),
                            );
                        }
                    },
                }
                if self.replicas != 1 {
                    return Err("Validator nodes must have exactly 1 replica".to_string());
                }
                if self.autoscaling.is_some() {
                    return Err("autoscaling is not supported for Validator nodes".to_string());
                }
                if self.ingress.is_some() {
                    return Err("ingress is not supported for Validator nodes".to_string());
                }
                Ok(())
            },
            NodeType::Horizon => {
                if self.horizon_config.is_none() {
                    return Err("horizonConfig is required for Horizon nodes".to_string());
                }
                self.validate_api_node()
            },
            NodeType::SorobanRpc => {
                if self.soroban_config.is_none() {
                    return Err("sorobanConfig is required for SorobanRpc nodes".to_string());
                }
                self.validate_api_node()
            },
        }
    }

    /// Checks the spec by the rules of its node type.
    pub fn validate(&self) -> (r: Result<(), String>)
        ensures
            reports(r, spec_error(*self)),
    {
        match self.validate_node_type() {
            Ok(_) => {},
            Err(e) => {
                return Err(e);
            },
        }
        if let Some(lb) = &self.load_balancer {
            match validate_load_balancer(lb) {
                Ok(_) => {},
                Err(e) => {
                    return Err(e);
                },
            }
        }
        match &self.global_discovery {
            Some(gd) => validate_global_discovery(gd),
            None => Ok(()),
        }
    }

    /// The container image for this node type and version.
    pub fn container_image(&self) -> (r: String)
        ensures
            r@ == image_of(self.node_type, self.version@),
    {
        image_for(self.node_type, &self.version)
    }

    /// Whether the volume claim goes when the node is deleted.
    pub fn should_delete_pvc(&self) -> (r: bool)
        ensures
            r == (self.storage.retention_policy == RetentionPolicy::Delete),
    {
        self.storage.retention_policy == RetentionPolicy::Delete
    }
}

impl StellarNodeStatus {
    /// A fresh status in the given phase.
    pub fn with_phase(phase: &str) -> (r: Self)
        ensures
            r.phase@ == phase@,
            r.message is None,
            r.observed_generation is None,
            r.conditions@.len() == 0,
            r.ledger_sequence is None,
            r.endpoint is None,
            r.external_ip is None,
            r.bgp_status is None,
            r.ready_replicas == 0,
            r.replicas == 0,
            r.canary_version is None,
            r.canary_weight is None,
    {
        StellarNodeStatus {
            phase: phase.to_string(),
            message: None,
            observed_generation: None,
            conditions: Vec::new(),
            ledger_sequence: None,
            endpoint: None,
            external_ip: None,
            bgp_status: None,
            ready_replicas: 0,
            replicas: 0,
            canary_version: None,
            canary_weight: None,
        }
    }

    /// Sets the phase and the message; nothing else changes.
    pub fn update(&mut self, phase: &str, message: Option<&str>)
        ensures
            final(self).phase@ == phase@,
            (match (final(self).message, message) {
                (Some(a), Some(b)) => a@ == b@,
                (None, None) => true,
                _ => false,
            }),
            *final(self) == (StellarNodeStatus {
                phase: final(self).phase,
                message: final(self).message,
                ..*old(self)
            }),
    {
        self.phase = phase.to_string();
        self.message = match message {
            Some(m) => Some(m.to_string()),
            None => None,
        };
    }

    /// Ready, with every replica ready.
    pub fn is_ready(&self) -> (r: bool)
        ensures
            r == (self.phase@ == "Ready"@ && self.ready_replicas >= self.replicas),
    {
        same(&self.phase, "Ready") && self.ready_replicas >= self.replicas
    }
}

/// A path of an ingress is sound: it is not blank, and is matched as a prefix or
/// exactly.
pub open spec fn sound_path(p: IngressPath) -> bool {
    !blank(p.path@) && (p.path_type is None || p.path_type->0@ == "Prefix"@ || p.path_type->0@
        == "Exact"@)
}

/// A host of an ingress is sound: it has a name and at least one path, and every
/// path is sound.
pub open spec fn sound_host(h: IngressHost) -> bool {
    !blank(h.host@) && h.paths@.len() > 0 && forall|j: int|
        0 <= j < h.paths@.len() ==> sound_path(#[trigger] h.paths@[j])
}

proof fn lemma_paths(v: Seq<IngressPath>, i: int)
    requires
        0 <= i,
    ensures
        paths_error(v, i) is None <==> forall|j: int|
            i <= j < v.len() ==> sound_path(#[trigger] v[j]),
    decreases v.len() - i,
{
    if i < v.len() {
        lemma_paths(v, i + 1);
        assert(path_error(v[i]) is None <==> sound_path(v[i]));
    }
}

proof fn lemma_hosts(v: Seq<IngressHost>, i: int)
    requires
        0 <= i,
    ensures
        hosts_error(v, i) is None <==> forall|j: int|
            i <= j < v.len() ==> sound_host(#[trigger] v[j]),
    decreases v.len() - i,
{
    if i < v.len() {
        lemma_hosts(v, i + 1);
        lemma_paths(v[i].paths@, 0);
        assert(host_error(v[i]) is None <==> sound_host(v[i]));
    }
}

proof fn lemma_peers(v: Seq<BGPPeer>, i: int)
    requires
        0 <= i,
    ensures
        peers_error(v, i) is None <==> forall|j: int|
            i <= j < v.len() ==> !blank((#[trigger] v[j]).address@) && v[j].asn != 0,
    decreases v.len() - i,
{
    if i < v.len() {
        lemma_peers(v, i + 1);
    }
}

/// An ingress is taken where it has a host and every host is sound.
pub proof fn law_when_an_ingress_is_taken(c: IngressConfig)
    ensures
        ingress_error(c) is None <==> c.hosts@.len() > 0 && forall|j: int|
            0 <= j < c.hosts@.len() ==> sound_host(#[trigger] c.hosts@[j]),
{
    lemma_hosts(c.hosts@, 0);
}

/// A load balancer is taken where it is off, or where its health is checked on a
/// port that there is and, with BGP, it has a number of its own and peers that
/// each have an address and a number.
pub proof fn law_when_a_load_balancer_is_taken(lb: LoadBalancerConfig)
    ensures
        load_balancer_error(lb) is None <==> !lb.enabled || {
            &&& lb.health_check_enabled ==> 1 <= lb.health_check_port <= 65535
            &&& lb.mode == LoadBalancerMode::BGP ==> {
                &&& lb.bgp is Some
                &&& lb.bgp->0.local_asn != 0
                &&& lb.bgp->0.peers@.len() > 0
                &&& forall|j: int|
                    0 <= j < lb.bgp->0.peers@.len() ==> !blank(
                        (#[trigger] lb.bgp->0.peers@[j]).address@,
                    ) && lb.bgp->0.peers@[j].asn != 0
            }
        },
{
    if lb.bgp is Some {
        lemma_peers(lb.bgp->0.peers@, 0);
    }
}

/// What is published to find a node is taken where it is off, or where the name
/// is not blank and lives for some time.
pub proof fn law_when_discovery_is_taken(gd: GlobalDiscoveryConfig)
    ensures
        global_discovery_error(gd) is None <==> !gd.enabled || gd.external_dns is None || (!blank(
            gd.external_dns->0.hostname@,
        ) && gd.external_dns->0.ttl > 0),
{
}

/// A node is taken just where all that its type asks for holds: a validator is
/// configured, is alone, has somewhere to keep a history that it keeps, and is
/// neither scaled nor reached through an ingress; another node is configured,
/// with bounds of scaling that leave room and a sound ingress. Its load balancer
/// and its discovery have to be sound too.
pub proof fn law_when_a_node_is_taken(s: StellarNodeSpec)
    ensures
        spec_error(s) is None <==> {
            &&& s.node_type == NodeType::Validator ==> {
                &&& s.validator_config is Some
                &&& s.validator_config->0.enable_history_archive
                    ==> s.validator_config->0.history_archive_urls@.len() > 0
                &&& s.replicas == 1
                &&& s.autoscaling is None
                &&& s.ingress is None
            }
            &&& s.node_type == NodeType::Horizon ==> s.horizon_config is Some
            &&& s.node_type == NodeType::SorobanRpc ==> s.soroban_config is Some
            &&& s.node_type != NodeType::Validator && s.autoscaling is Some ==> 1
                <= s.autoscaling->0.min_replicas <= s.autoscaling->0.max_replicas
            &&& s.node_type != NodeType::Validator && s.ingress is Some ==> ingress_error(
                s.ingress->0,
            ) is None
            &&& s.load_balancer is Some ==> load_balancer_error(s.load_balancer->0) is None
            &&& s.global_discovery is Some ==> global_discovery_error(s.global_discovery->0) is None
        },
{
}

} // verus!
