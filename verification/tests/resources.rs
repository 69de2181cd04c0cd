//! Manifests of a node.

use stellar_k8s::controller::context::NodeContext;
use stellar_k8s::controller::resources::cnpg::{build_cnpg_cluster, ensure_cnpg_cluster};
use stellar_k8s::controller::resources::config_map::{build_config_map, ensure_alerting};
use stellar_k8s::controller::resources::helpers::{render_annotation_template, resource_name};
use stellar_k8s::controller::resources::hpa::build_hpa;
use stellar_k8s::controller::resources::ingress::{
    build_ingress, canary_share, ensure_ingress, stable_weight,
};
use stellar_k8s::controller::resources::network_policy::{
    build_network_policy, extract_peers_from_config, gather_peers,
};
use stellar_k8s::controller::resources::plan::{Kind, Step};
use stellar_k8s::controller::resources::pod_template::{
    build_pod_template, derive_worker_threads, parse_cpu_millicores,
};
use stellar_k8s::controller::resources::service::build_service;
use stellar_k8s::controller::resources::storage::{
    build_pdb, build_pvc, delete_pvc, pvc_needs_update, resolve_pvc_storage_class,
};
use stellar_k8s::controller::resources::workload::{build_deployment, build_statefulset};
use stellar_k8s::crd::stellar_node::{
    HistoryMode, StellarNode, StellarNodeSpec, StellarNodeStatus,
};
use stellar_k8s::crd::types::{
    AutoscalingConfig, BGPConfig, BGPPeer, HorizonConfig, IngressConfig, IngressHost, IngressPath,
    KeySource, LoadBalancerConfig, LoadBalancerMode, ManagedDatabaseConfig, ManagedDatabaseStorage,
    NetworkPolicyConfig, NodeType, PlacementConfig, PodAntiAffinityStrength, ReplicationConfig,
    ReplicationRole, ResourceRequirements, ResourceSpec, RetentionPolicy, RolloutStrategy, RolloutStrategyType, SorobanConfig,
    StellarNetwork, StorageConfig, StorageMode, ValidatorConfig,
};
use stellar_k8s::json::Json;

fn test_spec() -> StellarNodeSpec {
    StellarNodeSpec {
        node_type: NodeType::Validator,
        history_mode: HistoryMode::Recent,
        network: StellarNetwork::Testnet,
        custom_network_passphrase: None,
        version: "v21.0.0".to_string(),
        resources: ResourceRequirements {
            requests: ResourceSpec { cpu: "500m".to_string(), memory: "1Gi".to_string() },
            limits: ResourceSpec { cpu: "2".to_string(), memory: "4Gi".to_string() },
        },
        storage: StorageConfig {
            mode: StorageMode::PersistentVolume,
            storage_class: String::new(),
            size: "100Gi".to_string(),
            retention_policy: Default::default(),
            annotations: None,
            node_affinity: None,
            snapshot_ref: None,
        },
        restore_from_snapshot: None,
        validator_config: None,
        horizon_config: None,
        soroban_config: None,
        replicas: 1,
        min_available: None,
        max_unavailable: None,
        suspended: false,
        alerting: false,
        database: None,
        managed_database: None,
        autoscaling: None,
        ingress: None,
        maintenance_mode: false,
        network_policy: None,
        load_balancer: None,
        global_discovery: None,
        topology_spread_constraints: None,
        strategy: RolloutStrategy {
            strategy_type: RolloutStrategyType::RollingUpdate,
            canary: None,
        },
        pod_anti_affinity: PodAntiAffinityStrength::Soft,
        placement: PlacementConfig { scp_aware_anti_affinity: false, jurisdiction: None },
        node_affinity: None,
        tolerations: Vec::new(),
        priority_class_name: None,
        volumes: None,
        volume_mounts: None,
        sidecars: None,
        init_containers: None,
        stellar_core_env: Vec::new(),
        horizon_env: Vec::new(),
        probes: None,
        diagnostic_sidecar_resources: None,
        forensic_snapshot: None,
        dr_config: None,
        nat_traversal: None,
        hitless_upgrade: None,
        log_shipper: None,
        ebpf_config: None,
        replication_config: None,
        service_annotations: None,
        service_labels: None,
        resource_meta: None,
    }
}

fn test_node() -> StellarNode {
    StellarNode {
        name: "test-node".to_string(),
        namespace: Some("stellar-system".to_string()),
        uid: Some("abc-123".to_string()),
        spec: test_spec(),
        status: None,
    }
}

fn context() -> NodeContext {
    NodeContext {
        network_label: "testnet".to_string(),
        isolation_label: "testnet".to_string(),
        network_name: "Testnet".to_string(),
        network_passphrase: "Test SDF Network ; September 2015".to_string(),
        limit_millicores: Some(2000),
        request_millicores: None,
        quorum_peers: Vec::new(),
        jurisdiction_affinity: None,
        jurisdiction_tolerations: Vec::new(),
        state_sync_sidecar: Json::object(),
        captive_core_toml: None,
        quorum_override_toml: None,
        operator_version: "0.1.0".to_string(),
    }
}

fn at<'a>(d: &'a Json, path: &[&str]) -> Option<&'a Json> {
    let mut here = d;
    for part in path {
        here = match (here, part.parse::<usize>()) {
            (Json::List(v), Ok(i)) => v.get(i)?,
            _ => here.member(part)?,
        };
    }
    Some(here)
}

fn text_at(d: &Json, path: &[&str]) -> Option<String> {
    match at(d, path) {
        Some(Json::Text(s)) => Some(s.clone()),
        Some(Json::Number(s)) => Some(s.clone()),
        _ => None,
    }
}

#[test]
fn resolves_storage_class_with_explicit_value() {
    let mut node = test_node();
    node.spec.storage.mode = StorageMode::Local;
    node.spec.storage.storage_class = "fast-ssd".to_string();

    let resolved = resolve_pvc_storage_class(&node, true, true);
    assert_eq!(resolved, "fast-ssd");
}

#[test]
fn resolves_storage_class_to_local_path_for_local_mode() {
    let mut node = test_node();
    node.spec.storage.mode = StorageMode::Local;
    node.spec.storage.storage_class.clear();

    let resolved = resolve_pvc_storage_class(&node, true, false);
    assert_eq!(resolved, "local-path");
}

#[test]
fn resolves_storage_class_to_local_storage_when_path_missing() {
    let mut node = test_node();
    node.spec.storage.mode = StorageMode::Local;
    node.spec.storage.storage_class.clear();

    let resolved = resolve_pvc_storage_class(&node, false, true);
    assert_eq!(resolved, "local-storage");
}

#[test]
fn resolves_storage_class_to_empty_when_no_local_class_found() {
    let mut node = test_node();
    node.spec.storage.mode = StorageMode::Local;
    node.spec.storage.storage_class.clear();

    let resolved = resolve_pvc_storage_class(&node, false, false);
    assert!(resolved.is_empty());
}

#[test]
fn build_pvc_uses_resolved_storage_class() {
    let node = test_node();
    let pvc = build_pvc(&node, "gp3", &context());
    assert_eq!(text_at(&pvc, &["spec", "storageClassName"]), Some("gp3".to_string()));
}

#[test]
fn pvc_update_detects_storage_class_change() {
    let node = test_node();
    let existing = build_pvc(&node, "standard", &context());
    let desired = build_pvc(&node, "gp3", &context());
    assert!(pvc_needs_update(&existing, &desired));
}

#[test]
fn pvc_update_skips_when_specs_match() {
    let node = test_node();
    let existing = build_pvc(&node, "standard", &context());
    let desired = build_pvc(&node, "standard", &context());
    assert!(!pvc_needs_update(&existing, &desired));
}

#[test]
fn should_delete_pvc_returns_true_for_delete_policy() {
    let mut node = test_node();
    node.spec.storage.retention_policy = RetentionPolicy::Delete;
    assert!(node.spec.should_delete_pvc(), "Delete policy must trigger PVC deletion");
}

#[test]
fn should_delete_pvc_returns_false_for_retain_policy() {
    let mut node = test_node();
    node.spec.storage.retention_policy = RetentionPolicy::Retain;
    assert!(!node.spec.should_delete_pvc(), "Retain policy must prevent PVC deletion");
}

#[test]
fn default_retention_policy_is_delete() {
    let node = test_node();
    assert!(node.spec.should_delete_pvc(), "default retention policy must be Delete");
}

#[test]
fn pvc_built_with_delete_policy_has_correct_storage_class() {
    let mut node = test_node();
    node.spec.storage.retention_policy = RetentionPolicy::Delete;
    let pvc = build_pvc(&node, "fast-ssd", &context());
    assert_eq!(
        text_at(&pvc, &["spec", "storageClassName"]),
        Some("fast-ssd".to_string()),
        "PVC storage class must be preserved regardless of retention policy"
    );
}

#[test]
fn pvc_built_with_retain_policy_has_correct_storage_class() {
    let mut node = test_node();
    node.spec.storage.retention_policy = RetentionPolicy::Retain;
    let pvc = build_pvc(&node, "standard", &context());
    assert_eq!(
        text_at(&pvc, &["spec", "storageClassName"]),
        Some("standard".to_string()),
        "PVC storage class must be preserved regardless of retention policy"
    );
}

#[test]
fn build_hpa_includes_supported_custom_metrics() {
    let mut node = test_node();
    node.spec.autoscaling = Some(AutoscalingConfig {
        min_replicas: 1,
        max_replicas: 5,
        target_cpu_utilization_percentage: None,
        target_memory_utilization_percentage: None,
        custom_metrics: vec![
            "stellar_horizon_tps".to_string(),
            "stellar_queue_length".to_string(),
        ],
        behavior: None,
    });

    let hpa = build_hpa(&node, &context()).expect("HPA should build with supported custom metrics");
    let metrics = match at(&hpa, &["spec", "metrics"]) {
        Some(Json::List(v)) => v,
        _ => panic!("HPA spec metrics should exist"),
    };
    let metric_names: Vec<String> = metrics
        .iter()
        .filter_map(|m| text_at(m, &["object", "metric", "name"]))
        .collect();
    assert!(metric_names.contains(&"stellar_horizon_tps".to_string()));
    assert!(metric_names.contains(&"stellar_horizon_queue_length".to_string()));
}

#[test]
fn hpa_without_autoscaling_is_an_error() {
    let node = test_node();
    assert!(build_hpa(&node, &context()).is_err());
}

#[test]
fn retained_claim_is_deleted_by_no_step_of_its_own() {
    let node = test_node();
    let steps = delete_pvc(&node, false);
    assert_eq!(steps.len(), 1);
    assert!(matches!(
        &steps[0],
        Step::Delete { kind: Kind::PersistentVolumeClaim, name, dry_run: false, .. }
            if name == "test-node-data"
    ));
}

#[test]
fn resource_names_carry_a_suffix() {
    assert_eq!(resource_name(&test_node(), "data"), "test-node-data");
}

#[test]
fn annotation_templates_are_filled_in() {
    let node = test_node();
    let text =
        render_annotation_template("{{name}}.${namespace}/{{nodeType}}-{{network}}", &node, &context());
    assert_eq!(text, "test-node.stellar-system/Validator-Testnet");
}

#[test]
fn cpu_amounts_are_read_in_millicores() {
    assert_eq!(parse_cpu_millicores("500m", None), Some(500));
    assert_eq!(parse_cpu_millicores("2", Some(2000)), Some(2000));
    assert_eq!(parse_cpu_millicores("", None), None);
    assert_eq!(parse_cpu_millicores("x", None), None);
}

#[test]
fn worker_threads_follow_the_cpu_limit() {
    assert_eq!(derive_worker_threads(&test_node(), &context()), 2);
}

#[test]
fn peers_are_gathered_without_ports_and_repetition() {
    let items = vec![
        Some("core-2.example.org:11625".to_string()),
        None,
        Some("core-1.example.org".to_string()),
        Some("core-2.example.org:11625".to_string()),
    ];
    let keys = vec!["GABC.example".to_string(), "core-3.example.org".to_string(), "x".to_string()];
    let peers = gather_peers(&items, &keys);
    assert_eq!(peers, ["core-1.example.org", "core-2.example.org", "core-3.example.org"]);
}

#[test]
fn peers_come_from_the_toml_of_a_validator() {
    let mut node = test_node();
    node.spec.validator_config = Some(ValidatorConfig {
        seed_secret_ref: "seed".to_string(),
        seed_secret_source: None,
        key_source: KeySource::Secret,
        kms_config: None,
        hsm_config: None,
        quorum_set: None,
        known_peers: Some("KNOWN_PEERS=[\"core-a.example.org\", \"core-b.example.org\"]".to_string()),
        enable_history_archive: false,
        history_archive_urls: Vec::new(),
        external_dns: None,
    });
    let peers = extract_peers_from_config(&node);
    assert!(peers.iter().any(|p| p.contains("core-a.example.org")), "{peers:?}");
    assert!(peers.iter().any(|p| p.contains("core-b.example.org")), "{peers:?}");
}

#[test]
fn network_policy_names_its_node() {
    let node = test_node();
    let config = NetworkPolicyConfig {
        enabled: true,
        allow_namespaces: vec!["monitoring".to_string()],
        allow_pod_selector: None,
        allow_cidrs: vec!["10.0.0.0/8".to_string()],
        allow_metrics_scrape: true,
        metrics_namespace: "monitoring".to_string(),
    };
    let policy = build_network_policy(&node, &config, &context());
    assert_eq!(text_at(&policy, &["kind"]), Some("NetworkPolicy".to_string()));
    assert_eq!(
        text_at(&policy, &["metadata", "namespace"]),
        Some("stellar-system".to_string())
    );
    let text = policy.to_text();
    assert!(text.contains("10.0.0.0/8"));
}

#[test]
fn weights_of_an_ingress_make_a_hundred() {
    assert_eq!(stable_weight(10), 90);
    assert_eq!(stable_weight(0), 100);
    for (weight, share) in [(-5, 0), (0, 0), (10, 10), (100, 100), (150, 100)] {
        assert_eq!(canary_share(weight), share);
        assert_eq!(stable_weight(weight), 100 - share);
    }
}

#[test]
fn ingress_routes_to_the_service() {
    let mut node = test_node();
    node.spec.node_type = NodeType::Horizon;
    let config = IngressConfig {
        class_name: Some("nginx".to_string()),
        hosts: vec![IngressHost {
            host: "horizon.example.org".to_string(),
            paths: vec![IngressPath { path: "/".to_string(), path_type: Some("Prefix".to_string()) }],
        }],
        tls_secret_name: Some("tls".to_string()),
        annotations: None,
        cert_manager_issuer: None,
        cert_manager_cluster_issuer: None,
        external_dns: None,
        rate_limit: None,
    };
    let ingress = build_ingress(&node, &config, &context());
    assert_eq!(
        text_at(&ingress, &["spec", "rules", "0", "host"]),
        Some("horizon.example.org".to_string())
    );
    assert_eq!(
        text_at(&ingress, &["spec", "rules", "0", "http", "paths", "0", "pathType"]),
        Some("Prefix".to_string())
    );
}

#[test]
fn no_ingress_is_planned_for_a_validator() {
    assert!(ensure_ingress(&test_node(), false, &context()).is_empty());
}

#[test]
fn config_map_holds_the_network() {
    let map = build_config_map(&test_node(), false, &context());
    assert!(map.to_text().contains("Test SDF Network ; September 2015"));
}

#[test]
fn alerting_is_planned_only_where_it_is_wanted() {
    let mut node = test_node();
    let none = ensure_alerting(&node, false, &context());
    node.spec.alerting = true;
    let some = ensure_alerting(&node, false, &context());
    assert!(none.iter().all(|s| matches!(s, Step::Delete { .. })));
    assert!(some.iter().any(|s| matches!(s, Step::Apply { .. })));
}

#[test]
fn workloads_run_the_image_of_the_node() {
    let node = test_node();
    let set = build_statefulset(&node, false, None, &context());
    assert_eq!(text_at(&set, &["kind"]), Some("StatefulSet".to_string()));
    assert!(set.to_text().contains("stellar/stellar-core:v21.0.0"));
    let mut horizon = test_node();
    horizon.spec.node_type = NodeType::Horizon;
    horizon.spec.horizon_config = Some(HorizonConfig {
        stellar_core_url: "http://core:11626".to_string(),
        enable_ingest: true,
        ingest_workers: 2,
        auto_migration: false,
    });
    let deployment = build_deployment(&horizon, false, &context());
    assert_eq!(text_at(&deployment, &["kind"]), Some("Deployment".to_string()));
    assert!(deployment.to_text().contains("stellar/stellar-horizon:v21.0.0"));
}

#[test]
fn pod_template_mounts_the_data_volume() {
    let template = build_pod_template(
        &test_node(),
        "v21.0.0",
        Json::object().with("app", Json::text("x")),
        false,
        None,
        &context(),
    );
    assert!(template.to_text().contains("test-node-data"));
}

#[test]
fn service_exposes_the_peer_port_of_a_validator() {
    let service = build_service(&test_node(), false, &context());
    assert!(service.to_text().contains("11625"));
}

#[test]
fn managed_database_becomes_a_cluster() {
    let mut node = test_node();
    let config = ManagedDatabaseConfig {
        instances: 3,
        storage: ManagedDatabaseStorage {
            size: "50Gi".to_string(),
            storage_class: "fast".to_string(),
        },
        backup: None,
        pooling: None,
        postgres_version: "16".to_string(),
        database_name: None,
        username: None,
    };
    let cluster = build_cnpg_cluster(&node, &config, &context());
    assert_eq!(text_at(&cluster, &["kind"]), Some("Cluster".to_string()));
    assert_eq!(text_at(&cluster, &["spec", "instances"]), Some("3".to_string()));
    assert!(ensure_cnpg_cluster(&node, false, &context()).is_empty());
    node.spec.managed_database = Some(config);
    assert_eq!(ensure_cnpg_cluster(&node, false, &context()).len(), 1);
}

#[test]
fn disruption_budget_is_for_more_than_one_replica() {
    let mut node = test_node();
    node.spec.replicas = 5;
    let pdb = build_pdb(&node, &context()).unwrap();
    assert_eq!(text_at(&pdb, &["spec", "minAvailable"]), Some("3".to_string()));
    node.spec.node_type = NodeType::Horizon;
    node.spec.replicas = 1;
    assert!(build_pdb(&node, &context()).is_none());
    node.spec.replicas = 3;
    let pdb = build_pdb(&node, &context()).unwrap();
    assert_eq!(text_at(&pdb, &["spec", "maxUnavailable"]), Some("1".to_string()));
}

#[test]
fn specification_is_checked() {
    let mut spec = test_spec();
    assert_eq!(
        spec.validate(),
        Err("validatorConfig is required for Validator nodes".to_string())
    );
    spec.node_type = NodeType::Horizon;
    assert_eq!(spec.validate(), Err("horizonConfig is required for Horizon nodes".to_string()));
    spec.node_type = NodeType::SorobanRpc;
    assert_eq!(spec.validate(), Err("sorobanConfig is required for SorobanRpc nodes".to_string()));
    spec.soroban_config = Some(SorobanConfig {
        stellar_core_url: "http://core:11626".to_string(),
        captive_core_config: None,
        captive_core_structured_config: None,
        cache_config: None,
    });
    assert_eq!(spec.validate(), Ok(()));
    spec.load_balancer = Some(LoadBalancerConfig {
        enabled: true,
        mode: LoadBalancerMode::BGP,
        bgp: None,
        health_check_enabled: false,
        health_check_port: 0,
        external_dns: None,
    });
    assert_eq!(
        spec.validate(),
        Err("loadBalancer.bgp configuration is required when mode is BGP".to_string())
    );
    spec.load_balancer = Some(LoadBalancerConfig {
        enabled: true,
        mode: LoadBalancerMode::BGP,
        bgp: Some(BGPConfig {
            local_asn: 64512,
            peers: vec![BGPPeer { address: " ".to_string(), asn: 64513 }],
        }),
        health_check_enabled: false,
        health_check_port: 0,
        external_dns: None,
    });
    assert_eq!(
        spec.validate(),
        Err("loadBalancer.bgp.peers[0].address must not be empty".to_string())
    );
}

#[test]
fn status_is_ready_with_its_replicas() {
    let mut status = StellarNodeStatus::with_phase("Pending");
    assert!(!status.is_ready());
    status.update("Ready", Some("ok"));
    status.replicas = 2;
    status.ready_replicas = 1;
    assert!(!status.is_ready());
    status.ready_replicas = 2;
    assert!(status.is_ready());
}

#[test]
fn policy_denies_what_it_does_not_allow() {
    let config = NetworkPolicyConfig {
        enabled: true,
        allow_namespaces: Vec::new(),
        allow_pod_selector: None,
        allow_cidrs: Vec::new(),
        allow_metrics_scrape: false,
        metrics_namespace: "monitoring".to_string(),
    };
    let policy = build_network_policy(&test_node(), &config, &context());
    let types = at(&policy, &["spec", "policyTypes"]).unwrap();
    assert!(types.equals(&Json::list().and(Json::text("Ingress")).and(Json::text("Egress"))));
    let Some(Json::List(rules)) = at(&policy, &["spec", "egress"]) else {
        panic!("no egress rules")
    };
    let mut open = Vec::new();
    for rule in rules {
        if rule.member("ports").is_none() {
            open.push(rule.to_text());
        }
    }
    assert!(
        rules.iter().any(|r| {
            let text = r.to_text();
            text.contains("443") && text.contains("6443") && r.member("to").is_none()
        }),
        "{rules:?}"
    );
    assert_eq!(open.len(), 2, "{open:?}");
    assert!(open.iter().any(|r| r.contains("testnet")), "{open:?}");
    assert!(open.iter().any(|r| r.contains("stellar-system")), "{open:?}");
}

#[test]
fn claims_differ_either_way() {
    let a = build_pvc(&test_node(), "standard", &context());
    let b = build_pvc(&test_node(), "gp3", &context());
    assert!(!pvc_needs_update(&a, &a));
    assert_eq!(pvc_needs_update(&a, &b), pvc_needs_update(&b, &a));
}

#[test]
fn idle_nodes_run_no_pod() {
    let replicas = |node: &StellarNode| {
        let set = build_statefulset(node, false, None, &context());
        let deployment = build_deployment(node, false, &context());
        (
            at(&set, &["spec", "replicas"]).unwrap().to_text(),
            at(&deployment, &["spec", "replicas"]).unwrap().to_text(),
        )
    };
    let none = ("0".to_string(), "0".to_string());
    let mut node = test_node();
    assert_ne!(replicas(&node), none);
    node.spec.suspended = true;
    assert_eq!(replicas(&node), none);
    node.spec.suspended = false;
    node.spec.replication_config = Some(ReplicationConfig {
        enabled: true,
        role: ReplicationRole::Passive,
        remote_cluster_id: "other".to_string(),
    });
    assert_eq!(replicas(&node), none);
    node.spec.replication_config = Some(ReplicationConfig {
        enabled: true,
        role: ReplicationRole::Active,
        remote_cluster_id: "other".to_string(),
    });
    assert_ne!(replicas(&node), none);
}

#[test]
fn overrides_take_the_place_of_variables() {
    let variables = |node: &StellarNode| {
        let set = build_statefulset(node, false, None, &context());
        match at(&set, &["spec", "template", "spec", "containers", "0", "env"]) {
            Some(Json::List(v)) => v
                .iter()
                .map(|e| (text_at(e, &["name"]).unwrap(), text_at(e, &["value"])))
                .collect::<Vec<_>>(),
            _ => Vec::new(),
        }
    };
    let mut node = test_node();
    let before = variables(&node);
    node.spec.stellar_core_env = vec![
        Json::object()
            .with("name", Json::text("STELLAR_CORE_WORKER_THREADS"))
            .with("value", Json::text("9")),
        Json::object().with("name", Json::text("EXTRA")).with("value", Json::text("yes")),
    ];
    let after = variables(&node);
    assert_eq!(after.len(), before.len() + 1);
    for (i, (name, value)) in before.iter().enumerate() {
        if name == "STELLAR_CORE_WORKER_THREADS" {
            assert_eq!(after[i], (name.clone(), Some("9".to_string())));
        } else {
            assert_eq!(after[i], (name.clone(), value.clone()));
        }
    }
    assert_eq!(after[before.len()], ("EXTRA".to_string(), Some("yes".to_string())));
}

#[test]
fn members_are_read_back() {
    let d = Json::object().with("b", Json::text("2")).with("a", Json::number(1));
    let changed = d.clone().with("b", Json::flag(true));
    assert!(changed.member("b").unwrap().equals(&Json::flag(true)));
    assert!(changed.member("a").unwrap().equals(d.member("a").unwrap()));
    assert!(changed.member("c").is_none());
    assert_eq!(changed.to_text(), "{\"a\":1,\"b\":true}");
}
